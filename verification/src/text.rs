//! Character classes and verified scanning of decimal and hexadecimal
//! literals, the textual ground for the argument and address parsers.

use vstd::prelude::*;
use vstd::string::StrSliceExecFns;

verus! {

/// A decimal digit `'0'..='9'`.
pub open spec fn is_dec_digit(c: char) -> bool {
    48 <= c as u32 <= 57
}

/// The numeric value of a decimal digit.
pub open spec fn dec_digit_val(c: char) -> nat {
    (c as u32 - 48) as nat
}

/// A hexadecimal digit `'0'..='9'`, `'a'..='f'` or `'A'..='F'`.
pub open spec fn is_hex_digit(c: char) -> bool {
    is_dec_digit(c) || 97 <= c as u32 <= 102 || 65 <= c as u32 <= 70
}

/// The numeric value of a hexadecimal digit.
pub open spec fn hex_digit_val(c: char) -> nat {
    if is_dec_digit(c) {
        dec_digit_val(c)
    } else if 97 <= c as u32 <= 102 {
        (c as u32 - 87) as nat
    } else {
        (c as u32 - 55) as nat
    }
}

/// Value of the decimal digit run `s[i..j]`, most significant digit first.
pub open spec fn dec_val(s: Seq<char>, i: int, j: int) -> nat
    decreases j - i,
{
    if i >= j {
        0
    } else {
        dec_val(s, i, j - 1) * 10 + dec_digit_val(s[j - 1])
    }
}

/// Value of the hexadecimal digit run `s[i..j]`, most significant digit first.
pub open spec fn hex_val(s: Seq<char>, i: int, j: int) -> nat
    decreases j - i,
{
    if i >= j {
        0
    } else {
        hex_val(s, i, j - 1) * 16 + hex_digit_val(s[j - 1])
    }
}

/// Every character of `s[i..j]` is a decimal digit.
pub open spec fn all_dec_digits(s: Seq<char>, i: int, j: int) -> bool {
    forall|k: int| i <= k < j ==> is_dec_digit(s[k])
}

/// The index just past the decimal digit run that starts at `i`.
pub open spec fn dec_digits_end(s: Seq<char>, i: int) -> int
    recommends
        0 <= i <= s.len(),
    decreases s.len() - i,
{
    if i < s.len() && is_dec_digit(s[i]) {
        dec_digits_end(s, i + 1)
    } else {
        i
    }
}

/// The index just past the hexadecimal digit run that starts at `i`.
pub open spec fn hex_digits_end(s: Seq<char>, i: int) -> int
    recommends
        0 <= i <= s.len(),
    decreases s.len() - i,
{
    if i < s.len() && is_hex_digit(s[i]) {
        hex_digits_end(s, i + 1)
    } else {
        i
    }
}

pub proof fn lemma_dec_digits_end(s: Seq<char>, i: int)
    requires
        0 <= i <= s.len(),
    ensures
        i <= dec_digits_end(s, i) <= s.len(),
        forall|k: int| i <= k < dec_digits_end(s, i) ==> is_dec_digit(s[k]),
        dec_digits_end(s, i) < s.len() ==> !is_dec_digit(s[dec_digits_end(s, i)]),
    decreases s.len() - i,
{
    if i < s.len() && is_dec_digit(s[i]) {
        lemma_dec_digits_end(s, i + 1);
    }
}

pub proof fn lemma_hex_digits_end(s: Seq<char>, i: int)
    requires
        0 <= i <= s.len(),
    ensures
        i <= hex_digits_end(s, i) <= s.len(),
        forall|k: int| i <= k < hex_digits_end(s, i) ==> is_hex_digit(s[k]),
        hex_digits_end(s, i) < s.len() ==> !is_hex_digit(s[hex_digits_end(s, i)]),
    decreases s.len() - i,
{
    if i < s.len() && is_hex_digit(s[i]) {
        lemma_hex_digits_end(s, i + 1);
    }
}

/// Appending digits never decreases the value of a decimal run.
pub proof fn lemma_dec_val_monotonic(s: Seq<char>, i: int, j: int, k: int)
    requires
        i <= j <= k,
    ensures
        dec_val(s, i, j) <= dec_val(s, i, k),
    decreases k - j,
{
    if j < k {
        lemma_dec_val_monotonic(s, i, j, k - 1);
        assert(dec_val(s, i, k) == dec_val(s, i, k - 1) * 10 + dec_digit_val(s[k - 1]));
        assert(dec_val(s, i, k - 1) * 10 >= dec_val(s, i, k - 1));
    }
}

/// Sixteen to the given power.
pub open spec fn pow16(n: nat) -> nat
    decreases n,
{
    if n == 0 {
        1
    } else {
        16 * pow16((n - 1) as nat)
    }
}

/// A hexadecimal run of `n` digits is below `16^n`.
pub proof fn lemma_hex_val_bound(s: Seq<char>, i: int, j: int)
    requires
        i <= j,
        forall|k: int| i <= k < j ==> is_hex_digit(s[k]),
    ensures
        hex_val(s, i, j) < pow16((j - i) as nat),
    decreases j - i,
{
    if i < j {
        lemma_hex_val_bound(s, i, j - 1);
        assert(pow16((j - i) as nat) == 16 * pow16((j - 1 - i) as nat));
        assert(hex_val(s, i, j - 1) * 16 <= (pow16((j - 1 - i) as nat) - 1) * 16);
        assert(hex_digit_val(s[j - 1]) < 16);
    }
}

/// Where the digits of an unsigned decimal literal begin: a single
/// leading `'+'` sign is allowed.
pub open spec fn dec_digits_start(s: Seq<char>) -> int {
    if s.len() > 0 && s[0] == '+' {
        1
    } else {
        0
    }
}

/// The value of an unsigned decimal literal: an optional `'+'` sign
/// followed by at least one decimal digit and nothing else.
pub open spec fn dec_literal_val(s: Seq<char>) -> Option<nat> {
    let b = dec_digits_start(s);
    if b < s.len() && all_dec_digits(s, b, s.len() as int) {
        Some(dec_val(s, b, s.len() as int))
    } else {
        None
    }
}

/// The decimal digits of `n`, most significant first.
pub open spec fn dec_chars_of(n: nat) -> Seq<char>
    decreases n,
{
    if n < 10 {
        seq![((n + 48) as u8) as char]
    } else {
        dec_chars_of(n / 10) + seq![((n % 10 + 48) as u8) as char]
    }
}

/// The one-character string for a decimal digit.
fn digit_str(d: u32) -> (r: &'static str)
    requires
        d < 10,
    ensures
        r@ == seq![((d + 48) as u8) as char],
{
    proof {
        reveal_strlit("0");
        reveal_strlit("1");
        reveal_strlit("2");
        reveal_strlit("3");
        reveal_strlit("4");
        reveal_strlit("5");
        reveal_strlit("6");
        reveal_strlit("7");
        reveal_strlit("8");
        reveal_strlit("9");
    }
    match d {
        0 => "0",
        1 => "1",
        2 => "2",
        3 => "3",
        4 => "4",
        5 => "5",
        6 => "6",
        7 => "7",
        8 => "8",
        _ => "9",
    }
}

/// Writes `n` in decimal, most significant digit first, no sign and no
/// leading zeros (a single `0` for zero).
pub fn u32_dec_string(n: u32) -> (r: String)
    ensures
        r@ == dec_chars_of(n as nat),
    decreases n,
{
    if n < 10 {
        let mut r = String::new();
        r.append(digit_str(n));
        proof {
            assert(r@ =~= dec_chars_of(n as nat));
        }
        r
    } else {
        let mut r = u32_dec_string(n / 10);
        r.append(digit_str(n % 10));
        proof {
            assert(r@ =~= dec_chars_of(n as nat));
        }
        r
    }
}

/// Equality of two string slices, decided character by character.
pub fn str_eq(a: &str, b: &str) -> (r: bool)
    ensures
        r == (a@ == b@),
{
    let an = a.unicode_len();
    let bn = b.unicode_len();
    if an != bn {
        return false;
    }
    let mut i: usize = 0;
    while i < an
        invariant
            an == a@.len(),
            bn == b@.len(),
            an == bn,
            0 <= i <= an,
            forall|k: int| 0 <= k < i ==> a@[k] == b@[k],
        decreases an - i,
    {
        if a.get_char(i) != b.get_char(i) {
            return false;
        }
        i += 1;
    }
    proof {
        assert(a@ =~= b@);
    }
    true
}

/// Whether a literal parses as a `u64`, and its value when it does.
pub open spec fn spec_parse_dec_u64(s: Seq<char>) -> Option<u64> {
    match dec_literal_val(s) {
        Some(n) => if n <= u64::MAX {
            Some(n as u64)
        } else {
            None
        },
        None => None,
    }
}

/// Whether a literal parses as a `u32`, and its value when it does.
pub open spec fn spec_parse_dec_u32(s: Seq<char>) -> Option<u32> {
    match dec_literal_val(s) {
        Some(n) => if n <= u32::MAX {
            Some(n as u32)
        } else {
            None
        },
        None => None,
    }
}

/// Parses an unsigned decimal literal as a `u64`, rejecting anything that
/// is not an optional `'+'` followed by digits, and any value over
/// `u64::MAX`.
pub fn parse_dec_u64(s: &str) -> (r: Option<u64>)
    ensures
        r == spec_parse_dec_u64(s@),
{
    let n = s.unicode_len();
    let start: usize = if n > 0 && s.get_char(0) == '+' {
        1
    } else {
        0
    };
    if start >= n {
        return None;
    }
    let mut acc: u128 = 0;
    let mut i: usize = start;
    while i < n
        invariant
            n == s@.len(),
            start == dec_digits_start(s@),
            start <= i <= n,
            all_dec_digits(s@, start as int, i as int),
            acc == dec_val(s@, start as int, i as int),
            acc <= u64::MAX,
        decreases n - i,
    {
        let c = s.get_char(i);
        let cv = c as u32;
        if cv < 48 || cv > 57 {
            return None;
        }
        let d: u32 = cv - 48;
        let next: u128 = acc * 10 + d as u128;
        if next > u64::MAX as u128 {
            proof {
                if all_dec_digits(s@, start as int, s@.len() as int) {
                    lemma_dec_val_monotonic(s@, start as int, i + 1, s@.len() as int);
                }
            }
            return None;
        }
        acc = next;
        i += 1;
    }
    Some(acc as u64)
}

/// Parses an unsigned decimal literal as a `u32`, in the same way as
/// [`parse_dec_u64`] but with the `u32` ceiling.
pub fn parse_dec_u32(s: &str) -> (r: Option<u32>)
    ensures
        r == spec_parse_dec_u32(s@),
{
    let n = s.unicode_len();
    let start: usize = if n > 0 && s.get_char(0) == '+' {
        1
    } else {
        0
    };
    if start >= n {
        return None;
    }
    let mut acc: u64 = 0;
    let mut i: usize = start;
    while i < n
        invariant
            n == s@.len(),
            start == dec_digits_start(s@),
            start <= i <= n,
            all_dec_digits(s@, start as int, i as int),
            acc == dec_val(s@, start as int, i as int),
            acc <= u32::MAX,
        decreases n - i,
    {
        let c = s.get_char(i);
        let cv = c as u32;
        if cv < 48 || cv > 57 {
            return None;
        }
        let d: u32 = cv - 48;
        let next: u64 = acc * 10 + d as u64;
        if next > u32::MAX as u64 {
            proof {
                if all_dec_digits(s@, start as int, s@.len() as int) {
                    lemma_dec_val_monotonic(s@, start as int, i + 1, s@.len() as int);
                }
            }
            return None;
        }
        acc = next;
        i += 1;
    }
    Some(acc as u32)
}

} // verus!
