//! The configuration resolver: turns the startup argument tokens into a
//! validated configuration, a request for the usage text, or a usage
//! error, scanning strictly left to right and stopping at the first
//! error.

use crate::ip::{lemma_parse_ip_empty, parse_ip, spec_parse_ip, IpAddress};
use crate::text::{
    dec_chars_of, parse_dec_u32, parse_dec_u64, spec_parse_dec_u32, spec_parse_dec_u64, str_eq,
    u32_dec_string,
};
use vstd::prelude::*;
use vstd::string::StringExecFns;
use vstd::string::StrSliceExecFns;

verus! {

/// The exit status for argument and validation errors.
pub const EXIT_CODE_USAGE_ERROR: u8 = 2;

/// The exit status for runtime errors: socket setup, clock failures and
/// timestamp overflow.
pub const EXIT_CODE_RUNTIME_ERROR: u8 = 1;

/// The default send interval in milliseconds, used when the interval
/// selector is absent.
pub const DEFAULT_INTERVAL_MS: u64 = 1000;

/// Which option a token selects.
#[derive(Clone, Copy, Debug, PartialEq, Eq, Structural)]
pub enum Selector {
    Addr,
    Port,
    Interval,
}

/// A validated configuration: destination address and port, and the
/// send interval in milliseconds.
#[derive(Clone, Copy, Debug, PartialEq, Eq, Structural)]
pub struct Config {
    pub addr: IpAddress,
    pub port: u16,
    pub interval_ms: u64,
}

impl Config {
    /// The configuration invariants: the port and the interval are
    /// never zero.
    pub open spec fn wf(&self) -> bool {
        self.port >= 1 && self.interval_ms >= 1
    }
}

/// A usage error, at the specification level: offending tokens appear
/// as character sequences.
pub enum SpecUsageError {
    MissingValue(Selector),
    InvalidIp(Seq<char>),
    InvalidNumber(Selector, Seq<char>),
    PortOutOfRange(u32),
    IntervalZero,
    UnknownArgument(Seq<char>),
    MissingAddr,
    MissingPort,
}

/// A usage error: which validation rule failed, with the offending
/// token where one exists.
#[derive(Clone, Debug, PartialEq, Eq)]
pub enum UsageError {
    MissingValue(Selector),
    InvalidIp(String),
    InvalidNumber(Selector, String),
    PortOutOfRange(u32),
    IntervalZero,
    UnknownArgument(String),
    MissingAddr,
    MissingPort,
}

impl View for UsageError {
    type V = SpecUsageError;

    open spec fn view(&self) -> SpecUsageError {
        match self {
            UsageError::MissingValue(sel) => SpecUsageError::MissingValue(*sel),
            UsageError::InvalidIp(s) => SpecUsageError::InvalidIp(s@),
            UsageError::InvalidNumber(sel, s) => SpecUsageError::InvalidNumber(*sel, s@),
            UsageError::PortOutOfRange(v) => SpecUsageError::PortOutOfRange(*v),
            UsageError::IntervalZero => SpecUsageError::IntervalZero,
            UsageError::UnknownArgument(s) => SpecUsageError::UnknownArgument(s@),
            UsageError::MissingAddr => SpecUsageError::MissingAddr,
            UsageError::MissingPort => SpecUsageError::MissingPort,
        }
    }
}

/// The conventional spelling of each selector.
pub open spec fn spec_selector_text(sel: Selector) -> Seq<char> {
    match sel {
        Selector::Addr => "--addr"@,
        Selector::Port => "--port"@,
        Selector::Interval => "--interval-ms"@,
    }
}

/// The spelling of a selector, as [`spec_selector_text`] gives it.
pub fn selector_text(sel: Selector) -> (r: &'static str)
    ensures
        r@ == spec_selector_text(sel),
{
    match sel {
        Selector::Addr => "--addr",
        Selector::Port => "--port",
        Selector::Interval => "--interval-ms",
    }
}

impl UsageError {
    /// The error line for this usage error, as printed before the
    /// usage text.
    pub open spec fn spec_message(&self) -> Seq<char> {
        match self {
            UsageError::MissingValue(sel) => "Missing value for "@ + spec_selector_text(*sel),
            UsageError::InvalidIp(s) => "Invalid IP address for --addr: "@ + s@,
            UsageError::InvalidNumber(sel, s) => "Invalid value for "@ + spec_selector_text(*sel)
                + ": "@ + s@,
            UsageError::PortOutOfRange(v) => "Port out of range for --port: "@ + dec_chars_of(
                *v as nat,
            ),
            UsageError::IntervalZero => "--interval-ms must be > 0"@,
            UsageError::UnknownArgument(s) => "Unknown argument: "@ + s@,
            UsageError::MissingAddr => "Missing required --addr"@,
            UsageError::MissingPort => "Missing required --port"@,
        }
    }

    /// Renders the error line, as [`Self::spec_message`] gives it.
    pub fn message(&self) -> (r: String)
        ensures
            r@ == self.spec_message(),
    {
        match self {
            UsageError::MissingValue(sel) => {
                let mut r = String::new();
                r.append("Missing value for ");
                r.append(selector_text(*sel));
                proof {
                    assert(r@ =~= self.spec_message());
                }
                r
            },
            UsageError::InvalidIp(s) => {
                let mut r = String::new();
                r.append("Invalid IP address for --addr: ");
                r.append(s.as_str());
                proof {
                    assert(r@ =~= self.spec_message());
                }
                r
            },
            UsageError::InvalidNumber(sel, s) => {
                let mut r = String::new();
                r.append("Invalid value for ");
                r.append(selector_text(*sel));
                r.append(": ");
                r.append(s.as_str());
                proof {
                    assert(r@ =~= self.spec_message());
                }
                r
            },
            UsageError::PortOutOfRange(v) => {
                let mut r = String::new();
                r.append("Port out of range for --port: ");
                let d = u32_dec_string(*v);
                r.append(d.as_str());
                proof {
                    assert(r@ =~= self.spec_message());
                }
                r
            },
            UsageError::IntervalZero => {
                let mut r = String::new();
                r.append("--interval-ms must be > 0");
                proof {
                    assert(r@ =~= self.spec_message());
                }
                r
            },
            UsageError::UnknownArgument(s) => {
                let mut r = String::new();
                r.append("Unknown argument: ");
                r.append(s.as_str());
                proof {
                    assert(r@ =~= self.spec_message());
                }
                r
            },
            UsageError::MissingAddr => {
                let mut r = String::new();
                r.append("Missing required --addr");
                proof {
                    assert(r@ =~= self.spec_message());
                }
                r
            },
            UsageError::MissingPort => {
                let mut r = String::new();
                r.append("Missing required --port");
                proof {
                    assert(r@ =~= self.spec_message());
                }
                r
            },
        }
    }
}

/// What resolving the arguments decided, at the specification level.
pub enum SpecResolution {
    Help,
    Ready(Config),
    Usage(SpecUsageError),
}

/// What resolving the arguments decided: show the usage text and exit
/// successfully, run with a validated configuration, or fail with a
/// usage error.
#[derive(Clone, Debug, PartialEq, Eq)]
pub enum Resolution {
    Help,
    Ready(Config),
    Usage(UsageError),
}

impl View for Resolution {
    type V = SpecResolution;

    open spec fn view(&self) -> SpecResolution {
        match self {
            Resolution::Help => SpecResolution::Help,
            Resolution::Ready(c) => SpecResolution::Ready(*c),
            Resolution::Usage(e) => SpecResolution::Usage(e@),
        }
    }
}

/// The usage text, parameterized by the program name.
pub open spec fn spec_usage(program: Seq<char>) -> Seq<char> {
    "Usage:\n  "@ + program
        + " --addr <IPv4-or-IPv6> --port <1-65535> [--interval-ms <ms>]\n\nExample:\n  "@ + program
        + " --addr 255.255.255.255 --port 12321 --interval-ms 1000\n  "@ + program
        + " --addr ff02::1 --port 12321 --interval-ms 500\n"@
}

/// Returns the usage message for the program.
pub fn usage(program: &str) -> (r: String)
    ensures
        r@ == spec_usage(program@),
{
    let mut r = String::new();
    r.append("Usage:\n  ");
    r.append(program);
    r.append(" --addr <IPv4-or-IPv6> --port <1-65535> [--interval-ms <ms>]\n\nExample:\n  ");
    r.append(program);
    r.append(" --addr 255.255.255.255 --port 12321 --interval-ms 1000\n  ");
    r.append(program);
    r.append(" --addr ff02::1 --port 12321 --interval-ms 500\n");
    proof {
        assert(r@ =~= spec_usage(program@));
    }
    r
}

/// Fetches the value token at position `i`, or the missing-value error
/// for `sel` when there is none or it is empty.
pub fn get_arg_value(args: &Vec<String>, i: usize, sel: Selector) -> (r: Result<String, UsageError>)
    ensures
        r matches Ok(v) ==> (i as int) < args@.len() && v@ == args@[i as int]@ && v@.len() > 0,
        r is Err ==> ((i as int) >= args@.len() || args@[i as int]@.len() == 0) && r->Err_0@
            == SpecUsageError::MissingValue(sel),
{
    if i < args.len() {
        let v = args[i].clone();
        if v.as_str().unicode_len() > 0 {
            return Ok(v);
        }
    }
    Err(UsageError::MissingValue(sel))
}

/// The port rule: the token must parse as an unsigned integer that fits
/// a `u32`, and its value must lie in 1..=65535.
pub open spec fn spec_parse_port(s: Seq<char>, sel: Selector) -> Result<u16, SpecUsageError> {
    match spec_parse_dec_u32(s) {
        None => Err(SpecUsageError::InvalidNumber(sel, s)),
        Some(v) => if v == 0 || v > 65535 {
            Err(SpecUsageError::PortOutOfRange(v))
        } else {
            Ok(v as u16)
        },
    }
}

/// Parses a string as a u16 port number (1-65535).
pub fn parse_u16(s: &str, sel: Selector) -> (r: Result<u16, UsageError>)
    ensures
        r matches Ok(v) ==> spec_parse_port(s@, sel) == Ok::<u16, SpecUsageError>(v),
        r matches Err(e) ==> spec_parse_port(s@, sel) == Err::<u16, SpecUsageError>(e@),
{
    match parse_dec_u32(s) {
        None => Err(UsageError::InvalidNumber(sel, s.to_owned())),
        Some(v) => if v == 0 || v > 65535 {
            Err(UsageError::PortOutOfRange(v))
        } else {
            Ok(v as u16)
        },
    }
}

/// Parses a string as a u64 value.
pub fn parse_u64(s: &str, sel: Selector) -> (r: Result<u64, UsageError>)
    ensures
        r matches Ok(v) ==> spec_parse_dec_u64(s@) == Some(v),
        r matches Err(e) ==> spec_parse_dec_u64(s@) is None && e@ == SpecUsageError::InvalidNumber(
            sel,
            s@,
        ),
{
    match parse_dec_u64(s) {
        None => Err(UsageError::InvalidNumber(sel, s.to_owned())),
        Some(v) => Ok(v),
    }
}

/// The whole resolver rule, scanning from position `i` with the options
/// gathered so far. Strictly left to right; the first error wins; the
/// help selector short-circuits everything after it; a later occurrence
/// of a selector overrides an earlier one; after the scan, address and
/// port must both have been set.
pub open spec fn spec_resolve_from(
    args: Seq<Seq<char>>,
    i: int,
    addr: Option<IpAddress>,
    port: Option<u16>,
    interval_ms: u64,
) -> SpecResolution
    recommends
        0 <= i,
    decreases args.len() - i,
{
    if i >= args.len() {
        if addr is None {
            SpecResolution::Usage(SpecUsageError::MissingAddr)
        } else if port is None {
            SpecResolution::Usage(SpecUsageError::MissingPort)
        } else {
            SpecResolution::Ready(
                Config { addr: addr->0, port: port->0, interval_ms },
            )
        }
    } else {
        let a = args[i];
        if a == "--addr"@ {
            if i + 1 >= args.len() || args[i + 1].len() == 0 {
                SpecResolution::Usage(SpecUsageError::MissingValue(Selector::Addr))
            } else {
                match spec_parse_ip(args[i + 1]) {
                    None => SpecResolution::Usage(SpecUsageError::InvalidIp(args[i + 1])),
                    Some(ip) => spec_resolve_from(args, i + 2, Some(ip), port, interval_ms),
                }
            }
        } else if a == "--port"@ {
            if i + 1 >= args.len() || args[i + 1].len() == 0 {
                SpecResolution::Usage(SpecUsageError::MissingValue(Selector::Port))
            } else {
                match spec_parse_port(args[i + 1], Selector::Port) {
                    Err(e) => SpecResolution::Usage(e),
                    Ok(p) => spec_resolve_from(args, i + 2, addr, Some(p), interval_ms),
                }
            }
        } else if a == "--interval-ms"@ {
            if i + 1 >= args.len() || args[i + 1].len() == 0 {
                SpecResolution::Usage(SpecUsageError::MissingValue(Selector::Interval))
            } else {
                match spec_parse_dec_u64(args[i + 1]) {
                    None => SpecResolution::Usage(
                        SpecUsageError::InvalidNumber(Selector::Interval, args[i + 1]),
                    ),
                    Some(v) => if v == 0 {
                        SpecResolution::Usage(SpecUsageError::IntervalZero)
                    } else {
                        spec_resolve_from(args, i + 2, addr, port, v)
                    },
                }
            }
        } else if a == "-h"@ || a == "--help"@ {
            SpecResolution::Help
        } else {
            SpecResolution::Usage(SpecUsageError::UnknownArgument(a))
        }
    }
}

/// What the resolver decides on the full token sequence, starting with
/// no address, no port and the default interval.
pub open spec fn spec_resolve(args: Seq<Seq<char>>) -> SpecResolution {
    spec_resolve_from(args, 0, None, None, DEFAULT_INTERVAL_MS as u64)
}

/// Resolves the startup argument tokens (the program name excluded), as
/// [`spec_resolve`] describes.
pub fn resolve_config(args: &Vec<String>) -> (r: Resolution)
    ensures
        r@ == spec_resolve(args.deep_view()),
{
    let ghost dv = args.deep_view();
    let n = args.len();
    proof {
        assert(dv.len() == n);
    }
    let mut addr: Option<IpAddress> = None;
    let mut port: Option<u16> = None;
    let mut interval_ms: u64 = DEFAULT_INTERVAL_MS;
    let mut i: usize = 0;
    while i < n
        invariant
            n == args@.len(),
            dv == args.deep_view(),
            dv.len() == n,
            i <= n,
            spec_resolve_from(dv, i as int, addr, port, interval_ms) == spec_resolve(dv),
        decreases n - i,
    {
        proof {
            assert(dv[i as int] == args@[i as int]@);
            assert(i + 1 < n ==> dv[i as int + 1] == args@[i as int + 1]@);
        }
        if str_eq(args[i].as_str(), "--addr") {
            let v = match get_arg_value(args, i + 1, Selector::Addr) {
                Ok(v) => v,
                Err(e) => {
                    return Resolution::Usage(e);
                },
            };
            match parse_ip(v.as_str()) {
                Some(ip) => {
                    addr = Some(ip);
                },
                None => {
                    return Resolution::Usage(UsageError::InvalidIp(v));
                },
            }
        } else if str_eq(args[i].as_str(), "--port") {
            let v = match get_arg_value(args, i + 1, Selector::Port) {
                Ok(v) => v,
                Err(e) => {
                    return Resolution::Usage(e);
                },
            };
            match parse_u16(v.as_str(), Selector::Port) {
                Ok(p) => {
                    port = Some(p);
                },
                Err(e) => {
                    return Resolution::Usage(e);
                },
            }
        } else if str_eq(args[i].as_str(), "--interval-ms") {
            let v = match get_arg_value(args, i + 1, Selector::Interval) {
                Ok(v) => v,
                Err(e) => {
                    return Resolution::Usage(e);
                },
            };
            match parse_u64(v.as_str(), Selector::Interval) {
                Ok(ms) => {
                    if ms == 0 {
                        return Resolution::Usage(UsageError::IntervalZero);
                    }
                    interval_ms = ms;
                },
                Err(e) => {
                    return Resolution::Usage(e);
                },
            }
        } else if str_eq(args[i].as_str(), "-h") || str_eq(args[i].as_str(), "--help") {
            return Resolution::Help;
        } else {
            return Resolution::Usage(UsageError::UnknownArgument(args[i].clone()));
        }
        i += 2;
    }
    if addr.is_none() {
        return Resolution::Usage(UsageError::MissingAddr);
    }
    if port.is_none() {
        return Resolution::Usage(UsageError::MissingPort);
    }
    let a = addr.unwrap();
    let p = port.unwrap();
    Resolution::Ready(Config { addr: a, port: p, interval_ms })
}

/// Any configuration the resolver hands out satisfies the configuration
/// invariants: the port and the interval are never zero.
pub proof fn lemma_resolved_config_wf(
    args: Seq<Seq<char>>,
    i: int,
    addr: Option<IpAddress>,
    port: Option<u16>,
    interval_ms: u64,
)
    requires
        0 <= i,
        port matches Some(p) ==> p >= 1,
        interval_ms >= 1,
    ensures
        spec_resolve_from(args, i, addr, port, interval_ms) matches SpecResolution::Ready(c)
            ==> c.wf(),
    decreases args.len() - i,
{
    if i < args.len() {
        let a = args[i];
        if a == "--addr"@ {
            if !(i + 1 >= args.len() || args[i + 1].len() == 0) {
                if let Some(ip) = spec_parse_ip(args[i + 1]) {
                    lemma_resolved_config_wf(args, i + 2, Some(ip), port, interval_ms);
                }
            }
        } else if a == "--port"@ {
            if !(i + 1 >= args.len() || args[i + 1].len() == 0) {
                if let Ok(p) = spec_parse_port(args[i + 1], Selector::Port) {
                    lemma_resolved_config_wf(args, i + 2, addr, Some(p), interval_ms);
                }
            }
        } else if a == "--interval-ms"@ {
            if !(i + 1 >= args.len() || args[i + 1].len() == 0) {
                if let Some(v) = spec_parse_dec_u64(args[i + 1]) {
                    if v != 0 {
                        lemma_resolved_config_wf(args, i + 2, addr, port, v);
                    }
                }
            }
        }
    }
}

/// The five selector literals are pairwise distinct, so the resolver's
/// left-to-right dispatch sends each token to exactly one rule.
proof fn lemma_selectors_distinct()
    ensures
        "--addr"@ != "--port"@,
        "--addr"@ != "--interval-ms"@,
        "--addr"@ != "-h"@,
        "--addr"@ != "--help"@,
        "--port"@ != "--interval-ms"@,
        "--port"@ != "-h"@,
        "--port"@ != "--help"@,
        "--interval-ms"@ != "-h"@,
        "--interval-ms"@ != "--help"@,
{
    reveal_strlit("--addr");
    reveal_strlit("--port");
    reveal_strlit("--interval-ms");
    reveal_strlit("-h");
    reveal_strlit("--help");
    assert("--addr"@.len() == 6);
    assert("--port"@.len() == 6);
    assert("--help"@.len() == 6);
    assert("--interval-ms"@.len() == 13);
    assert("-h"@.len() == 2);
    assert("--addr"@[2] == 'a');
    assert("--port"@[2] == 'p');
    assert("--help"@[2] == 'h');
}

/// One resolver step over a valid address pair: the scan records the
/// parsed address and moves on.
proof fn lemma_step_addr(
    args: Seq<Seq<char>>,
    i: int,
    addr: Option<IpAddress>,
    port: Option<u16>,
    interval_ms: u64,
    ip: IpAddress,
)
    requires
        0 <= i,
        i + 1 < args.len(),
        args[i] == "--addr"@,
        spec_parse_ip(args[i + 1]) == Some(ip),
    ensures
        spec_resolve_from(args, i, addr, port, interval_ms) == spec_resolve_from(
            args,
            i + 2,
            Some(ip),
            port,
            interval_ms,
        ),
{
    if args[i + 1].len() == 0 {
        lemma_parse_ip_empty(args[i + 1]);
    }
}

/// One resolver step over a valid port pair: the scan records the
/// parsed port and moves on.
proof fn lemma_step_port(
    args: Seq<Seq<char>>,
    i: int,
    addr: Option<IpAddress>,
    port: Option<u16>,
    interval_ms: u64,
    p: u16,
)
    requires
        0 <= i,
        i + 1 < args.len(),
        args[i] == "--port"@,
        spec_parse_port(args[i + 1], Selector::Port) == Ok::<u16, SpecUsageError>(p),
    ensures
        spec_resolve_from(args, i, addr, port, interval_ms) == spec_resolve_from(
            args,
            i + 2,
            addr,
            Some(p),
            interval_ms,
        ),
{
    lemma_selectors_distinct();
    assert(args[i + 1].len() > 0);
}

/// One resolver step over a valid interval pair: the scan records the
/// parsed interval and moves on.
proof fn lemma_step_interval(
    args: Seq<Seq<char>>,
    i: int,
    addr: Option<IpAddress>,
    port: Option<u16>,
    interval_ms: u64,
    v: u64,
)
    requires
        0 <= i,
        i + 1 < args.len(),
        args[i] == "--interval-ms"@,
        spec_parse_dec_u64(args[i + 1]) == Some(v),
        v >= 1,
    ensures
        spec_resolve_from(args, i, addr, port, interval_ms) == spec_resolve_from(
            args,
            i + 2,
            addr,
            port,
            v,
        ),
{
    lemma_selectors_distinct();
    assert(args[i + 1].len() > 0);
}

/// Every valid `(address, port, interval)` triple resolves to exactly
/// that configuration.
pub proof fn lemma_valid_triple_resolves(
    a: Seq<char>,
    p: Seq<char>,
    iv: Seq<char>,
    ip: IpAddress,
    port: u32,
    interval_ms: u64,
)
    requires
        spec_parse_ip(a) == Some(ip),
        spec_parse_dec_u32(p) == Some(port),
        1 <= port <= 65535,
        spec_parse_dec_u64(iv) == Some(interval_ms),
        interval_ms >= 1,
    ensures
        spec_resolve(seq!["--addr"@, a, "--port"@, p, "--interval-ms"@, iv])
            == SpecResolution::Ready(
            Config { addr: ip, port: port as u16, interval_ms },
        ),
{
    let args = seq!["--addr"@, a, "--port"@, p, "--interval-ms"@, iv];
    let d = DEFAULT_INTERVAL_MS as u64;
    lemma_step_addr(args, 0, None, None, d, ip);
    lemma_step_port(args, 2, Some(ip), None, d, port as u16);
    lemma_step_interval(args, 4, Some(ip), Some(port as u16), d, interval_ms);
    assert(spec_resolve_from(args, 6, Some(ip), Some(port as u16), interval_ms)
        == SpecResolution::Ready(Config { addr: ip, port: port as u16, interval_ms }));
}

/// Omitting the interval selector leaves the default of 1000 ms.
pub proof fn lemma_default_interval(a: Seq<char>, p: Seq<char>, ip: IpAddress, port: u32)
    requires
        spec_parse_ip(a) == Some(ip),
        spec_parse_dec_u32(p) == Some(port),
        1 <= port <= 65535,
    ensures
        spec_resolve(seq!["--addr"@, a, "--port"@, p]) == SpecResolution::Ready(
            Config { addr: ip, port: port as u16, interval_ms: DEFAULT_INTERVAL_MS as u64 },
        ),
{
    let args = seq!["--addr"@, a, "--port"@, p];
    let d = DEFAULT_INTERVAL_MS as u64;
    lemma_step_addr(args, 0, None, None, d, ip);
    lemma_step_port(args, 2, Some(ip), None, d, port as u16);
    assert(spec_resolve_from(args, 4, Some(ip), Some(port as u16), d)
        == SpecResolution::Ready(
        Config { addr: ip, port: port as u16, interval_ms: d },
    ));
}

/// The help selector short-circuits: whenever the left-to-right scan
/// reaches a help token, the resolver answers `Help`, whatever options
/// or tokens stand before or after it.
pub proof fn lemma_help_short_circuits(
    args: Seq<Seq<char>>,
    i: int,
    addr: Option<IpAddress>,
    port: Option<u16>,
    interval_ms: u64,
)
    requires
        0 <= i < args.len(),
        args[i] == "-h"@ || args[i] == "--help"@,
    ensures
        spec_resolve_from(args, i, addr, port, interval_ms) == SpecResolution::Help,
{
    lemma_selectors_distinct();
}

} // verus!
