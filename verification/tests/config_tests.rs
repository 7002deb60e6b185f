use udp_bcast_ts::config::{
    get_arg_value, parse_u16, parse_u64, resolve_config, usage, Config, Resolution, Selector,
    UsageError, DEFAULT_INTERVAL_MS, EXIT_CODE_RUNTIME_ERROR, EXIT_CODE_USAGE_ERROR,
};
use udp_bcast_ts::ip::IpAddress;

fn args(tokens: &[&str]) -> Vec<String> {
    tokens.iter().map(|t| t.to_string()).collect()
}

#[test]
fn valid_triple_resolves_exactly() {
    let r = resolve_config(&args(&[
        "--addr",
        "10.0.0.1",
        "--port",
        "8080",
        "--interval-ms",
        "250",
    ]));
    assert_eq!(
        r,
        Resolution::Ready(Config {
            addr: IpAddress::V4(10, 0, 0, 1),
            port: 8080,
            interval_ms: 250,
        })
    );
}

#[test]
fn valid_v6_triple_resolves_exactly() {
    let r = resolve_config(&args(&["--addr", "ff02::1", "--port", "12321", "--interval-ms", "500"]));
    assert_eq!(
        r,
        Resolution::Ready(Config {
            addr: IpAddress::V6(0xff02, 0, 0, 0, 0, 0, 0, 1),
            port: 12321,
            interval_ms: 500,
        })
    );
}

#[test]
fn broadcast_invocation_resolves() {
    let r = resolve_config(&args(&[
        "--addr",
        "255.255.255.255",
        "--port",
        "12321",
        "--interval-ms",
        "1000",
    ]));
    assert_eq!(
        r,
        Resolution::Ready(Config {
            addr: IpAddress::V4(255, 255, 255, 255),
            port: 12321,
            interval_ms: 1000,
        })
    );
}

#[test]
fn port_boundaries() {
    assert_eq!(parse_u16("0", Selector::Port), Err(UsageError::PortOutOfRange(0)));
    assert_eq!(parse_u16("65536", Selector::Port), Err(UsageError::PortOutOfRange(65536)));
    assert_eq!(parse_u16("1", Selector::Port), Ok(1));
    assert_eq!(parse_u16("65535", Selector::Port), Ok(65535));
}

#[test]
fn port_boundaries_through_resolver() {
    let r = resolve_config(&args(&["--addr", "1.2.3.4", "--port", "0"]));
    assert_eq!(r, Resolution::Usage(UsageError::PortOutOfRange(0)));
    let r = resolve_config(&args(&["--addr", "1.2.3.4", "--port", "65536"]));
    assert_eq!(r, Resolution::Usage(UsageError::PortOutOfRange(65536)));
    let r = resolve_config(&args(&["--addr", "1.2.3.4", "--port", "1"]));
    assert!(matches!(r, Resolution::Ready(c) if c.port == 1));
    let r = resolve_config(&args(&["--addr", "1.2.3.4", "--port", "65535"]));
    assert!(matches!(r, Resolution::Ready(c) if c.port == 65535));
}

#[test]
fn port_accepts_integer_spellings() {
    // An unsigned integer parse takes a leading plus sign and leading
    // zeros, unlike the address grammar.
    assert_eq!(parse_u16("+80", Selector::Port), Ok(80));
    assert_eq!(parse_u16("0080", Selector::Port), Ok(80));
}

#[test]
fn port_not_a_number() {
    assert_eq!(
        parse_u16("12x", Selector::Port),
        Err(UsageError::InvalidNumber(Selector::Port, "12x".to_string()))
    );
    // Too large for a u32: invalid, not out of range, as with a u32 parse.
    assert_eq!(
        parse_u16("99999999999", Selector::Port),
        Err(UsageError::InvalidNumber(Selector::Port, "99999999999".to_string()))
    );
}

#[test]
fn parse_u64_values() {
    assert_eq!(parse_u64("0", Selector::Interval), Ok(0));
    assert_eq!(parse_u64("1000", Selector::Interval), Ok(1000));
    assert_eq!(parse_u64("+7", Selector::Interval), Ok(7));
    assert_eq!(parse_u64("18446744073709551615", Selector::Interval), Ok(u64::MAX));
    assert_eq!(
        parse_u64("18446744073709551616", Selector::Interval),
        Err(UsageError::InvalidNumber(Selector::Interval, "18446744073709551616".to_string()))
    );
    assert_eq!(
        parse_u64("", Selector::Interval),
        Err(UsageError::InvalidNumber(Selector::Interval, "".to_string()))
    );
    assert_eq!(
        parse_u64("-1", Selector::Interval),
        Err(UsageError::InvalidNumber(Selector::Interval, "-1".to_string()))
    );
}

#[test]
fn interval_zero_rejected_one_accepted() {
    let r = resolve_config(&args(&["--addr", "1.2.3.4", "--port", "80", "--interval-ms", "0"]));
    assert_eq!(r, Resolution::Usage(UsageError::IntervalZero));
    let r = resolve_config(&args(&["--addr", "1.2.3.4", "--port", "80", "--interval-ms", "1"]));
    assert!(matches!(r, Resolution::Ready(c) if c.interval_ms == 1));
}

#[test]
fn interval_defaults_to_1000() {
    assert_eq!(DEFAULT_INTERVAL_MS, 1000);
    let r = resolve_config(&args(&["--addr", "1.2.3.4", "--port", "80"]));
    assert!(matches!(r, Resolution::Ready(c) if c.interval_ms == 1000));
}

#[test]
fn help_short_circuits_anywhere_reached() {
    assert_eq!(resolve_config(&args(&["-h"])), Resolution::Help);
    assert_eq!(resolve_config(&args(&["--help"])), Resolution::Help);
    assert_eq!(
        resolve_config(&args(&["--addr", "1.2.3.4", "--help", "--port", "bad"])),
        Resolution::Help
    );
    assert_eq!(
        resolve_config(&args(&["--help", "--no-such-flag"])),
        Resolution::Help
    );
}

#[test]
fn first_error_beats_later_help() {
    // The scan is strictly left to right: a fatal token before the help
    // selector wins.
    assert_eq!(
        resolve_config(&args(&["--no-such-flag", "--help"])),
        Resolution::Usage(UsageError::UnknownArgument("--no-such-flag".to_string()))
    );
    assert_eq!(
        resolve_config(&args(&["--addr", "bad", "-h"])),
        Resolution::Usage(UsageError::InvalidIp("bad".to_string()))
    );
}

#[test]
fn missing_required_selectors() {
    assert_eq!(
        resolve_config(&args(&[])),
        Resolution::Usage(UsageError::MissingAddr)
    );
    // Only a port given: the missing address selector is reported.
    assert_eq!(
        resolve_config(&args(&["--port", "12321"])),
        Resolution::Usage(UsageError::MissingAddr)
    );
    assert_eq!(
        resolve_config(&args(&["--addr", "255.255.255.255"])),
        Resolution::Usage(UsageError::MissingPort)
    );
}

#[test]
fn missing_values() {
    assert_eq!(
        resolve_config(&args(&["--addr"])),
        Resolution::Usage(UsageError::MissingValue(Selector::Addr))
    );
    assert_eq!(
        resolve_config(&args(&["--addr", ""])),
        Resolution::Usage(UsageError::MissingValue(Selector::Addr))
    );
    assert_eq!(
        resolve_config(&args(&["--addr", "1.2.3.4", "--port"])),
        Resolution::Usage(UsageError::MissingValue(Selector::Port))
    );
    assert_eq!(
        resolve_config(&args(&["--addr", "1.2.3.4", "--port", "80", "--interval-ms"])),
        Resolution::Usage(UsageError::MissingValue(Selector::Interval))
    );
}

#[test]
fn invalid_address_reported_with_value() {
    assert_eq!(
        resolve_config(&args(&["--addr", "999.1.1.1", "--port", "80"])),
        Resolution::Usage(UsageError::InvalidIp("999.1.1.1".to_string()))
    );
}

#[test]
fn unknown_argument_reported_with_token() {
    assert_eq!(
        resolve_config(&args(&["--frequency", "10"])),
        Resolution::Usage(UsageError::UnknownArgument("--frequency".to_string()))
    );
}

#[test]
fn later_selector_overrides_earlier() {
    let r = resolve_config(&args(&["--addr", "1.2.3.4", "--addr", "5.6.7.8", "--port", "80"]));
    assert!(matches!(r, Resolution::Ready(c) if c.addr == IpAddress::V4(5, 6, 7, 8)));
}

#[test]
fn get_arg_value_fetches_next_token() {
    let a = args(&["--addr", "1.2.3.4"]);
    assert_eq!(get_arg_value(&a, 1, Selector::Addr), Ok("1.2.3.4".to_string()));
    assert_eq!(
        get_arg_value(&a, 2, Selector::Addr),
        Err(UsageError::MissingValue(Selector::Addr))
    );
    let b = args(&["--addr", ""]);
    assert_eq!(
        get_arg_value(&b, 1, Selector::Addr),
        Err(UsageError::MissingValue(Selector::Addr))
    );
}

#[test]
fn usage_text_names_all_selectors() {
    let u = usage("udp_bcast_ts");
    let expected = "Usage:\n  udp_bcast_ts --addr <IPv4-or-IPv6> --port <1-65535> [--interval-ms <ms>]\n\nExample:\n  udp_bcast_ts --addr 255.255.255.255 --port 12321 --interval-ms 1000\n  udp_bcast_ts --addr ff02::1 --port 12321 --interval-ms 500\n";
    assert_eq!(u, expected);
}

#[test]
fn error_messages_match_their_rules() {
    assert_eq!(
        UsageError::MissingValue(Selector::Addr).message(),
        "Missing value for --addr"
    );
    assert_eq!(
        UsageError::MissingValue(Selector::Interval).message(),
        "Missing value for --interval-ms"
    );
    assert_eq!(
        UsageError::InvalidIp("zzz".to_string()).message(),
        "Invalid IP address for --addr: zzz"
    );
    assert_eq!(
        UsageError::InvalidNumber(Selector::Port, "12x".to_string()).message(),
        "Invalid value for --port: 12x"
    );
    assert_eq!(
        UsageError::PortOutOfRange(65536).message(),
        "Port out of range for --port: 65536"
    );
    assert_eq!(
        UsageError::PortOutOfRange(0).message(),
        "Port out of range for --port: 0"
    );
    assert_eq!(UsageError::IntervalZero.message(), "--interval-ms must be > 0");
    assert_eq!(
        UsageError::UnknownArgument("--x".to_string()).message(),
        "Unknown argument: --x"
    );
    assert_eq!(UsageError::MissingAddr.message(), "Missing required --addr");
    assert_eq!(UsageError::MissingPort.message(), "Missing required --port");
}

#[test]
fn exit_codes_are_distinct() {
    assert_eq!(EXIT_CODE_USAGE_ERROR, 2);
    assert_eq!(EXIT_CODE_RUNTIME_ERROR, 1);
    assert_ne!(EXIT_CODE_USAGE_ERROR, EXIT_CODE_RUNTIME_ERROR);
}
