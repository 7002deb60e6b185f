//! A verified parser for IPv4 and IPv6 address literals.
//!
//! The accepted grammar is the conventional one: dotted-quad IPv4
//! literals (one to three decimal digits per octet, no leading zeros,
//! each octet at most 255), and IPv6 literals made of colon-separated
//! groups of one to four hexadecimal digits, with at most one `::`
//! standing for one or more zero groups, and an optional embedded
//! dotted quad taking the place of the last two groups.

use crate::text::{
    all_dec_digits, dec_digits_end, dec_val, hex_digits_end, hex_val, is_dec_digit, is_hex_digit,
    lemma_dec_digits_end, lemma_hex_digits_end, lemma_hex_val_bound, pow16,
};
use vstd::prelude::*;
use vstd::string::StrSliceExecFns;

verus! {

/// A destination address of exactly one family: four octets for IPv4,
/// eight 16-bit groups for IPv6.
#[derive(Clone, Copy, Debug, PartialEq, Eq, Structural)]
pub enum IpAddress {
    V4(u8, u8, u8, u8),
    V6(u16, u16, u16, u16, u16, u16, u16, u16),
}

impl IpAddress {
    /// Whether the address is of the IPv4 family.
    pub fn is_v4(&self) -> (r: bool)
        ensures
            r == (self is V4),
    {
        match self {
            IpAddress::V4(..) => true,
            IpAddress::V6(..) => false,
        }
    }
}

/// One IPv4 octet starting at `i`: the whole decimal digit run from `i`,
/// which must be one to three digits, without a leading zero unless it
/// is the single digit `0`, and must be at most 255. Yields the octet
/// and the index just past it.
pub open spec fn spec_octet(s: Seq<char>, i: int) -> Option<(u8, int)>
    recommends
        0 <= i <= s.len(),
{
    let j = dec_digits_end(s, i);
    if j == i {
        None
    } else if j - i > 3 {
        None
    } else if j - i > 1 && s[i] == '0' {
        None
    } else if dec_val(s, i, j) > 255 {
        None
    } else {
        Some((dec_val(s, i, j) as u8, j))
    }
}

/// A dotted quad starting at `i`: four octets separated by `'.'`.
/// Yields the octets and the index just past the quad; the caller
/// decides what may follow.
pub open spec fn spec_ipv4_at(s: Seq<char>, i: int) -> Option<((u8, u8, u8, u8), int)>
    recommends
        0 <= i <= s.len(),
{
    match spec_octet(s, i) {
        None => None,
        Some((a, j1)) => if j1 < s.len() && s[j1] == '.' {
            match spec_octet(s, j1 + 1) {
                None => None,
                Some((b, j2)) => if j2 < s.len() && s[j2] == '.' {
                    match spec_octet(s, j2 + 1) {
                        None => None,
                        Some((c, j3)) => if j3 < s.len() && s[j3] == '.' {
                            match spec_octet(s, j3 + 1) {
                                None => None,
                                Some((d, j4)) => Some(((a, b, c, d), j4)),
                            }
                        } else {
                            None
                        },
                    }
                } else {
                    None
                },
            }
        } else {
            None
        },
    }
}

/// An entire IPv4 literal: a dotted quad covering the whole string.
pub open spec fn spec_parse_ipv4(s: Seq<char>) -> Option<(u8, u8, u8, u8)> {
    match spec_ipv4_at(s, 0) {
        Some((o, e)) => if e == s.len() {
            Some(o)
        } else {
            None
        },
        None => None,
    }
}

/// Whether `c` is a decimal digit, decided on the character value.
fn dec_digit(c: char) -> (r: bool)
    ensures
        r == is_dec_digit(c),
{
    let v = c as u32;
    48 <= v && v <= 57
}

/// Whether `c` is a hexadecimal digit, decided on the character value.
fn hex_digit(c: char) -> (r: bool)
    ensures
        r == is_hex_digit(c),
{
    let v = c as u32;
    (48 <= v && v <= 57) || (97 <= v && v <= 102) || (65 <= v && v <= 70)
}

/// The index just past the decimal digit run starting at `i`.
fn dec_run_end(s: &str, i: usize) -> (j: usize)
    requires
        i as int <= s@.len(),
    ensures
        j as int == dec_digits_end(s@, i as int),
        i <= j,
        j as int <= s@.len(),
{
    let n = s.unicode_len();
    let mut j = i;
    loop
        invariant
            n == s@.len(),
            i <= j,
            j as int <= s@.len(),
            dec_digits_end(s@, i as int) == dec_digits_end(s@, j as int),
        ensures
            j as int == dec_digits_end(s@, i as int),
            i <= j,
            j as int <= s@.len(),
        decreases s@.len() - j,
    {
        if j >= n {
            break ;
        }
        if !dec_digit(s.get_char(j)) {
            break ;
        }
        j += 1;
    }
    j
}

/// The index just past the hexadecimal digit run starting at `i`.
fn hex_run_end(s: &str, i: usize) -> (j: usize)
    requires
        i as int <= s@.len(),
    ensures
        j as int == hex_digits_end(s@, i as int),
        i <= j,
        j as int <= s@.len(),
{
    let n = s.unicode_len();
    let mut j = i;
    loop
        invariant
            n == s@.len(),
            i <= j,
            j as int <= s@.len(),
            hex_digits_end(s@, i as int) == hex_digits_end(s@, j as int),
        ensures
            j as int == hex_digits_end(s@, i as int),
            i <= j,
            j as int <= s@.len(),
        decreases s@.len() - j,
    {
        if j >= n {
            break ;
        }
        if !hex_digit(s.get_char(j)) {
            break ;
        }
        j += 1;
    }
    j
}

/// Reads one IPv4 octet starting at `i`, as [`spec_octet`] describes.
fn parse_octet(s: &str, i: usize) -> (r: Option<(u8, usize)>)
    requires
        i as int <= s@.len(),
    ensures
        r is None <==> spec_octet(s@, i as int) is None,
        r matches Some((v, j)) ==> spec_octet(s@, i as int) == Some((v, j as int)) && i < j && j
            as int <= s@.len(),
{
    let j = dec_run_end(s, i);
    proof {
        lemma_dec_digits_end(s@, i as int);
    }
    if j == i {
        return None;
    }
    if j - i > 3 {
        return None;
    }
    if j - i > 1 && s.get_char(i) == '0' {
        return None;
    }
    let mut v: u32 = 0;
    let mut k = i;
    while k < j
        invariant
            i <= k <= j,
            j - i <= 3,
            j as int <= s@.len(),
            forall|m: int| i <= m < j ==> is_dec_digit(s@[m]),
            v == dec_val(s@, i as int, k as int),
            k - i == 0 ==> v == 0,
            k - i == 1 ==> v <= 9,
            k - i == 2 ==> v <= 99,
            k - i == 3 ==> v <= 999,
        decreases j - k,
    {
        let c = s.get_char(k);
        let d: u32 = c as u32 - 48;
        v = v * 10 + d;
        k += 1;
    }
    if v > 255 {
        return None;
    }
    Some((v as u8, j))
}

/// Reads a dotted quad starting at `i`, as [`spec_ipv4_at`] describes.
fn parse_ipv4_at(s: &str, i: usize) -> (r: Option<((u8, u8, u8, u8), usize)>)
    requires
        i as int <= s@.len(),
    ensures
        r is None <==> spec_ipv4_at(s@, i as int) is None,
        r matches Some((o, e)) ==> spec_ipv4_at(s@, i as int) == Some((o, e as int)) && e as int
            <= s@.len(),
{
    let n = s.unicode_len();
    let (a, j1) = match parse_octet(s, i) {
        Some(x) => x,
        None => {
            return None;
        },
    };
    if !(j1 < n && s.get_char(j1) == '.') {
        return None;
    }
    let (b, j2) = match parse_octet(s, j1 + 1) {
        Some(x) => x,
        None => {
            return None;
        },
    };
    if !(j2 < n && s.get_char(j2) == '.') {
        return None;
    }
    let (c, j3) = match parse_octet(s, j2 + 1) {
        Some(x) => x,
        None => {
            return None;
        },
    };
    if !(j3 < n && s.get_char(j3) == '.') {
        return None;
    }
    let (d, j4) = match parse_octet(s, j3 + 1) {
        Some(x) => x,
        None => {
            return None;
        },
    };
    Some(((a, b, c, d), j4))
}

/// Parses an entire IPv4 literal, as [`spec_parse_ipv4`] describes.
pub fn parse_ipv4(s: &str) -> (r: Option<(u8, u8, u8, u8)>)
    ensures
        r == spec_parse_ipv4(s@),
{
    let n = s.unicode_len();
    match parse_ipv4_at(s, 0) {
        Some((o, e)) => if e == n {
            Some(o)
        } else {
            None
        },
        None => None,
    }
}

/// One IPv6 group starting at `i`: the whole hexadecimal digit run from
/// `i`, which must be one to four digits. Yields the group value and the
/// index just past it.
pub open spec fn spec_h16(s: Seq<char>, i: int) -> Option<(u16, int)>
    recommends
        0 <= i <= s.len(),
{
    let j = hex_digits_end(s, i);
    if j == i || j - i > 4 {
        None
    } else {
        Some((hex_val(s, i, j) as u16, j))
    }
}

/// An IPv6 group at `p`, preceded by a `':'` separator when it is not
/// the first group of its run.
pub open spec fn spec_sep_h16(s: Seq<char>, p: int, slot: int) -> Option<(u16, int)>
    recommends
        0 <= p <= s.len(),
{
    if slot > 0 {
        if p < s.len() && s[p] == ':' {
            spec_h16(s, p + 1)
        } else {
            None
        }
    } else {
        spec_h16(s, p)
    }
}

/// An embedded dotted quad at `p`, preceded by a `':'` separator when it
/// is not the first element of its run.
pub open spec fn spec_sep_ipv4(s: Seq<char>, p: int, slot: int) -> Option<((u8, u8, u8, u8), int)>
    recommends
        0 <= p <= s.len(),
{
    if slot > 0 {
        if p < s.len() && s[p] == ':' {
            spec_ipv4_at(s, p + 1)
        } else {
            None
        }
    } else {
        spec_ipv4_at(s, p)
    }
}

/// Reads colon-separated IPv6 groups from `p`, filling slots `slot` up
/// to `limit`. An embedded dotted quad is tried first wherever at least
/// two slots remain; it fills exactly two slots and ends the run. The
/// run also ends at the first position where no further group can be
/// read. Yields the groups, the index just past them, and whether an
/// embedded quad was taken.
pub open spec fn spec_read_groups(s: Seq<char>, p: int, slot: int, limit: int) -> (Seq<u16>, int, bool)
    recommends
        0 <= p <= s.len(),
        slot <= limit,
    decreases limit - slot,
{
    if slot >= limit {
        (Seq::empty(), p, false)
    } else {
        let v4 = if slot + 1 < limit {
            spec_sep_ipv4(s, p, slot)
        } else {
            None
        };
        match v4 {
            Some(((a, b, c, d), p2)) => (
                seq![((a as u16) * 256 + (b as u16)) as u16, ((c as u16) * 256 + (d as u16)) as u16],
                p2,
                true,
            ),
            None => match spec_sep_h16(s, p, slot) {
                Some((g, p2)) => {
                    let rest = spec_read_groups(s, p2, slot + 1, limit);
                    (seq![g] + rest.0, rest.1, rest.2)
                },
                None => (Seq::empty(), p, false),
            },
        }
    }
}

/// The eight groups of an address whose literal read `head` before the
/// `::` and `tail` after it: the `::` stands for the zero groups in
/// between.
pub open spec fn groups_seq(head: Seq<u16>, tail: Seq<u16>) -> Seq<u16>
    recommends
        head.len() + tail.len() <= 8,
{
    head + Seq::new((8 - head.len() - tail.len()) as nat, |i: int| 0u16) + tail
}

/// An entire IPv6 literal: either eight groups covering the whole
/// string, or fewer than eight groups, a `::`, and a tail of groups
/// small enough that the `::` stands for at least one zero group. An
/// embedded dotted quad may only end the address.
pub open spec fn spec_parse_ipv6(s: Seq<char>) -> Option<IpAddress> {
    let hr = spec_read_groups(s, 0, 0, 8);
    let head = hr.0;
    let p = hr.1;
    if head.len() == 8 {
        if p == s.len() {
            Some(
                IpAddress::V6(
                    head[0],
                    head[1],
                    head[2],
                    head[3],
                    head[4],
                    head[5],
                    head[6],
                    head[7],
                ),
            )
        } else {
            None
        }
    } else if hr.2 {
        None
    } else if p + 2 <= s.len() && s[p] == ':' && s[p + 1] == ':' {
        let tr = spec_read_groups(s, p + 2, 0, 8 - head.len() - 1);
        if tr.1 == s.len() {
            let g = groups_seq(head, tr.0);
            Some(IpAddress::V6(g[0], g[1], g[2], g[3], g[4], g[5], g[6], g[7]))
        } else {
            None
        }
    } else {
        None
    }
}

/// An address literal of either family, the IPv4 form tried first.
pub open spec fn spec_parse_ip(s: Seq<char>) -> Option<IpAddress> {
    match spec_parse_ipv4(s) {
        Some((a, b, c, d)) => Some(IpAddress::V4(a, b, c, d)),
        None => spec_parse_ipv6(s),
    }
}

/// Reads one IPv6 group starting at `i`, as [`spec_h16`] describes.
fn parse_h16(s: &str, i: usize) -> (r: Option<(u16, usize)>)
    requires
        i as int <= s@.len(),
    ensures
        r is None <==> spec_h16(s@, i as int) is None,
        r matches Some((g, j)) ==> spec_h16(s@, i as int) == Some((g, j as int)) && i < j && j
            as int <= s@.len(),
{
    let j = hex_run_end(s, i);
    proof {
        lemma_hex_digits_end(s@, i as int);
    }
    if j == i || j - i > 4 {
        return None;
    }
    proof {
        assert(pow16(0) == 1);
        assert(pow16(1) == 16);
        assert(pow16(2) == 256);
        assert(pow16(3) == 4096);
        assert(pow16(4) == 65536);
    }
    let mut v: u32 = 0;
    let mut k = i;
    while k < j
        invariant
            i <= k <= j,
            j - i <= 4,
            j as int <= s@.len(),
            forall|m: int| i <= m < j ==> is_hex_digit(s@[m]),
            v == hex_val(s@, i as int, k as int),
            v < pow16((k - i) as nat),
            pow16(1) == 16 && pow16(2) == 256 && pow16(3) == 4096 && pow16(4) == 65536,
        decreases j - k,
    {
        let c = s.get_char(k);
        let cv = c as u32;
        let d: u32 = if cv >= 97 {
            cv - 87
        } else if cv >= 65 {
            cv - 55
        } else {
            cv - 48
        };
        proof {
            assert(pow16(((k + 1 - i)) as nat) == 16 * pow16((k - i) as nat));
        }
        v = v * 16 + d;
        k += 1;
    }
    proof {
        lemma_hex_val_bound(s@, i as int, j as int);
    }
    Some((v as u16, j))
}

/// Reads a separated IPv6 group, as [`spec_sep_h16`] describes.
fn parse_sep_h16(s: &str, p: usize, slot: usize) -> (r: Option<(u16, usize)>)
    requires
        p as int <= s@.len(),
    ensures
        r is None <==> spec_sep_h16(s@, p as int, slot as int) is None,
        r matches Some((g, p2)) ==> spec_sep_h16(s@, p as int, slot as int) == Some((g, p2 as int))
            && p < p2 && p2 as int <= s@.len(),
{
    let n = s.unicode_len();
    if slot > 0 {
        if p < n && s.get_char(p) == ':' {
            parse_h16(s, p + 1)
        } else {
            None
        }
    } else {
        parse_h16(s, p)
    }
}

/// Reads a separated embedded dotted quad, as [`spec_sep_ipv4`]
/// describes.
fn parse_sep_ipv4(s: &str, p: usize, slot: usize) -> (r: Option<((u8, u8, u8, u8), usize)>)
    requires
        p as int <= s@.len(),
    ensures
        r is None <==> spec_sep_ipv4(s@, p as int, slot as int) is None,
        r matches Some((o, p2)) ==> spec_sep_ipv4(s@, p as int, slot as int) == Some((
            o,
            p2 as int,
        )) && p2 as int <= s@.len(),
{
    let n = s.unicode_len();
    if slot > 0 {
        if p < n && s.get_char(p) == ':' {
            parse_ipv4_at(s, p + 1)
        } else {
            None
        }
    } else {
        parse_ipv4_at(s, p)
    }
}

/// Reads IPv6 groups from `p`, as [`spec_read_groups`] describes.
fn read_groups(s: &str, p: usize, slot: usize, limit: usize) -> (r: (Vec<u16>, usize, bool))
    requires
        p as int <= s@.len(),
        slot <= limit,
        limit <= 8,
    ensures
        ({
            let gr = spec_read_groups(s@, p as int, slot as int, limit as int);
            r.0@ == gr.0 && r.1 as int == gr.1 && r.2 == gr.2
        }),
        r.1 as int <= s@.len(),
        r.0.len() <= limit - slot,
    decreases limit - slot,
{
    if slot >= limit {
        return (Vec::new(), p, false);
    }
    if slot + 1 < limit {
        if let Some(((a, b, c, d), p2)) = parse_sep_ipv4(s, p, slot) {
            let g1 = (a as u16) * 256 + (b as u16);
            let g2 = (c as u16) * 256 + (d as u16);
            let mut out: Vec<u16> = Vec::new();
            out.push(g1);
            out.push(g2);
            proof {
                assert(out@ =~= seq![g1, g2]);
            }
            return (out, p2, true);
        }
    }
    match parse_sep_h16(s, p, slot) {
        Some((g, p2)) => {
            let (mut rest, p3, v4) = read_groups(s, p2, slot + 1, limit);
            let ghost rest0 = rest@;
            let mut out: Vec<u16> = Vec::new();
            out.push(g);
            out.append(&mut rest);
            proof {
                assert(out@ =~= seq![g] + rest0);
            }
            (out, p3, v4)
        },
        None => (Vec::new(), p, false),
    }
}

/// Parses an entire IPv6 literal, as [`spec_parse_ipv6`] describes.
pub fn parse_ipv6(s: &str) -> (r: Option<IpAddress>)
    ensures
        r == spec_parse_ipv6(s@),
{
    let n = s.unicode_len();
    let (head, p, head_v4) = read_groups(s, 0, 0, 8);
    let hn = head.len();
    if hn == 8 {
        if p == n {
            return Some(
                IpAddress::V6(head[0], head[1], head[2], head[3], head[4], head[5], head[6], head[7]),
            );
        } else {
            return None;
        }
    }
    if head_v4 {
        return None;
    }
    if !(n >= 2 && p <= n - 2 && s.get_char(p) == ':' && s.get_char(p + 1) == ':') {
        return None;
    }
    let ghost head0 = head@;
    let (tail, q, _tail_v4) = read_groups(s, p + 2, 0, 8 - hn - 1);
    if q != n {
        return None;
    }
    let tn = tail.len();
    let zeros = 8 - hn - tn;
    let mut g = head;
    let ghost tail0 = tail@;
    let mut k: usize = 0;
    while k < zeros
        invariant
            k <= zeros,
            zeros == 8 - hn - tn,
            hn + tn <= 7,
            g@.len() == hn + k,
            g@.subrange(0, hn as int) == head0,
            head0.len() == hn,
            forall|m: int| hn <= m < hn + k ==> g@[m] == 0u16,
        decreases zeros - k,
    {
        g.push(0);
        proof {
            assert(g@.subrange(0, hn as int) =~= head0);
        }
        k += 1;
    }
    let mut t = tail;
    g.append(&mut t);
    proof {
        assert(g@ =~= groups_seq(head0, tail0));
    }
    Some(IpAddress::V6(g[0], g[1], g[2], g[3], g[4], g[5], g[6], g[7]))
}

/// Parses an address literal of either family, as [`spec_parse_ip`]
/// describes.
pub fn parse_ip(s: &str) -> (r: Option<IpAddress>)
    ensures
        r == spec_parse_ip(s@),
{
    match parse_ipv4(s) {
        Some((a, b, c, d)) => Some(IpAddress::V4(a, b, c, d)),
        None => parse_ipv6(s),
    }
}

/// No address literal is empty.
pub proof fn lemma_parse_ip_empty(s: Seq<char>)
    requires
        s.len() == 0,
    ensures
        spec_parse_ip(s) is None,
{
    assert(dec_digits_end(s, 0) == 0);
    assert(hex_digits_end(s, 0) == 0);
    assert(spec_octet(s, 0) is None);
    assert(spec_h16(s, 0) is None);
    assert(spec_read_groups(s, 0, 0, 8).0 =~= Seq::empty());
    assert(spec_read_groups(s, 0, 0, 8).1 == 0);
}

} // verus!
