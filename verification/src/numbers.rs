//! Integers in text: parsing as `str::parse` does for `u32` and `i32`, and
//! decimal and hexadecimal formatting.
use vstd::prelude::*;
use crate::text::chars_of;

verus! {

/// Why a text is not an integer (the kinds of `std::num::IntErrorKind`).
#[derive(Debug, Clone, Copy, PartialEq, Eq)]
pub enum IntErrorKind {
    /// The text is empty.
    Empty,
    /// A character is not a digit (or a sign stands alone).
    InvalidDigit,
    /// The number is above the type's maximum.
    PosOverflow,
    /// The number is below the type's minimum.
    NegOverflow,
}

/// The value of a decimal digit.
pub open spec fn digit_value(c: char) -> Option<int> {
    if '0' <= c && c <= '9' {
        Some(c as int - '0' as int)
    } else {
        None
    }
}

/// Reads the digits of `s` left to right after `acc`, subtracting them for a
/// negative number; the first bad digit or the first step out of `lo..=hi` decides.
pub open spec fn scan_digits(s: Seq<char>, acc: int, negative: bool, lo: int, hi: int) -> Result<int, IntErrorKind>
    decreases s.len(),
{
    if s.len() == 0 {
        Ok(acc)
    } else {
        match digit_value(s[0]) {
            None => Err(IntErrorKind::InvalidDigit),
            Some(d) => {
                let n = if negative { acc * 10 - d } else { acc * 10 + d };
                if n > hi {
                    Err(IntErrorKind::PosOverflow)
                } else if n < lo {
                    Err(IntErrorKind::NegOverflow)
                } else {
                    scan_digits(s.drop_first(), n, negative, lo, hi)
                }
            },
        }
    }
}

/// What `str::parse` gives for an integer type with range `lo..=hi`: an
/// optional `+` (or `-` for a signed type) followed by decimal digits.
pub open spec fn parse_int(s: Seq<char>, signed: bool, lo: int, hi: int) -> Result<int, IntErrorKind> {
    if s.len() == 0 {
        Err(IntErrorKind::Empty)
    } else if s[0] == '+' || (signed && s[0] == '-') {
        if s.len() == 1 {
            Err(IntErrorKind::InvalidDigit)
        } else {
            scan_digits(s.drop_first(), 0, s[0] == '-', lo, hi)
        }
    } else {
        scan_digits(s, 0, false, lo, hi)
    }
}

/// The `u32` that `s` denotes (`u32::from_str`).
pub open spec fn u32_of(s: Seq<char>) -> Result<int, IntErrorKind> {
    parse_int(s, false, 0, u32::MAX as int)
}

/// The `i32` that `s` denotes (`i32::from_str`).
pub open spec fn i32_of(s: Seq<char>) -> Result<int, IntErrorKind> {
    parse_int(s, true, i32::MIN as int, i32::MAX as int)
}

/// A scan that succeeds stays within its range.
proof fn lemma_scan_in_range(s: Seq<char>, acc: int, negative: bool, lo: int, hi: int)
    requires
        lo <= acc <= hi,
    ensures
        scan_digits(s, acc, negative, lo, hi) matches Ok(v) ==> lo <= v <= hi,
    decreases s.len(),
{
    if s.len() > 0 {
        match digit_value(s[0]) {
            None => {},
            Some(d) => {
                let n = if negative { acc * 10 - d } else { acc * 10 + d };
                if lo <= n <= hi {
                    lemma_scan_in_range(s.drop_first(), n, negative, lo, hi);
                }
            },
        }
    }
}

/// Parses an integer in `lo..=hi` (a range within that of `i32` or `u32`).
fn parse_in_range(s: &str, signed: bool, lo: i64, hi: i64) -> (res: Result<i64, IntErrorKind>)
    requires
        i32::MIN <= lo <= 0,
        0 <= hi <= u32::MAX,
    ensures
        match (res, parse_int(s@, signed, lo as int, hi as int)) {
            (Ok(v), Ok(w)) => v == w,
            (Err(e), Err(f)) => e == f,
            _ => false,
        },
        res matches Ok(v) ==> lo <= v <= hi,
{
    let cs = chars_of(s);
    if cs.len() == 0 {
        return Err(IntErrorKind::Empty);
    }
    let mut negative = false;
    let mut i: usize = 0;
    if cs[0] == '+' || (signed && cs[0] == '-') {
        if cs.len() == 1 {
            return Err(IntErrorKind::InvalidDigit);
        }
        negative = cs[0] == '-';
        i = 1;
    }
    let ghost start = i as int;
    let mut acc: i64 = 0;
    assert(cs@.skip(1) == cs@.drop_first());
    assert(cs@.skip(0) == cs@);
    proof {
        lemma_scan_in_range(cs@.skip(start), 0, negative, lo as int, hi as int);
    }
    while i < cs.len()
        invariant
            cs@ == s@,
            cs.len() > 0,
            start == 0 || start == 1,
            start <= i <= cs.len(),
            i32::MIN <= lo <= 0,
            0 <= hi <= u32::MAX,
            lo <= acc <= hi,
            parse_int(s@, signed, lo as int, hi as int) == scan_digits(cs@.skip(i as int), acc as int, negative, lo as int, hi as int),
        decreases cs.len() - i,
    {
        assert(cs@.skip(i as int)[0] == cs@[i as int]);
        assert(cs@.skip(i as int).drop_first() == cs@.skip(i + 1));
        let c = cs[i];
        if c < '0' || c > '9' {
            return Err(IntErrorKind::InvalidDigit);
        }
        let d: i64 = (c as u32 - '0' as u32) as i64;
        let n: i64 = if negative { acc * 10 - d } else { acc * 10 + d };
        if n > hi {
            return Err(IntErrorKind::PosOverflow);
        }
        if n < lo {
            return Err(IntErrorKind::NegOverflow);
        }
        acc = n;
        i = i + 1;
    }
    assert(cs@.skip(i as int).len() == 0);
    Ok(acc)
}

/// Parses a `u32` as `u32::from_str` does.
pub fn parse_u32(s: &str) -> (res: Result<u32, IntErrorKind>)
    ensures
        match (res, u32_of(s@)) {
            (Ok(v), Ok(w)) => v == w,
            (Err(e), Err(f)) => e == f,
            _ => false,
        },
{
    match parse_in_range(s, false, 0, 0xffff_ffff) {
        Ok(v) => Ok(v as u32),
        Err(e) => Err(e),
    }
}

/// The `u16` that `s` denotes (`u16::from_str`).
pub open spec fn port_of(s: Seq<char>) -> Result<int, IntErrorKind> {
    parse_int(s, false, 0, u16::MAX as int)
}

/// Parses a `u16` as `u16::from_str` does.
pub fn parse_u16(s: &str) -> (res: Result<u16, IntErrorKind>)
    ensures
        match (res, port_of(s@)) {
            (Ok(v), Ok(w)) => v == w,
            (Err(e), Err(f)) => e == f,
            _ => false,
        },
{
    match parse_in_range(s, false, 0, 0xffff) {
        Ok(v) => Ok(v as u16),
        Err(e) => Err(e),
    }
}

/// Parses an `i32` as `i32::from_str` does.
pub fn parse_i32(s: &str) -> (res: Result<i32, IntErrorKind>)
    ensures
        match (res, i32_of(s@)) {
            (Ok(v), Ok(w)) => v == w,
            (Err(e), Err(f)) => e == f,
            _ => false,
        },
{
    match parse_in_range(s, true, -0x8000_0000, 0x7fff_ffff) {
        Ok(v) => Ok(v as i32),
        Err(e) => Err(e),
    }
}

/// The character of a digit value below 16 (lower-case letters above 9).
pub open spec fn digit_char(d: int) -> char {
    if d < 10 {
        ((d + 48) as u32) as char
    } else {
        ((d + 87) as u32) as char
    }
}

/// The decimal digits of `n`, without leading zeros (`0` for zero).
pub open spec fn decimal(n: nat) -> Seq<char>
    decreases n,
{
    if n < 10 {
        seq![digit_char(n as int)]
    } else {
        decimal(n / 10) + seq![digit_char((n % 10) as int)]
    }
}

/// The eight lower-case hexadecimal digits of `n`, zero-padded (`{:08x}`).
pub open spec fn hex8(n: u32) -> Seq<char> {
    Seq::new(8, |i: int| digit_char(((n as int) / pow16(7 - i)) % 16))
}

pub open spec fn pow16(k: int) -> int
    decreases k,
{
    if k <= 0 {
        1
    } else {
        16 * pow16(k - 1)
    }
}

fn digit_char_exec(d: u64) -> (c: char)
    requires
        d < 16,
    ensures
        c == digit_char(d as int),
{
    if d < 10 {
        ((d + 48) as u8) as char
    } else {
        ((d + 87) as u8) as char
    }
}

/// `n` in decimal, as `format!("{}", n)` writes it.
pub fn format_decimal(n: u64) -> (res: String)
    ensures
        res@ == decimal(n as nat),
    decreases n,
{
    if n < 10 {
        let mut s = String::new();
        s.push(digit_char_exec(n));
        s
    } else {
        let mut s = format_decimal(n / 10);
        s.push(digit_char_exec(n % 10));
        s
    }
}

/// `n` as eight lower-case hexadecimal digits, as `format!("{:08x}", n)` writes it.
pub fn format_hex8(n: u32) -> (res: String)
    ensures
        res@ == hex8(n),
{
    let mut s = String::new();
    let mut k: usize = 0;
    let mut div: u64 = 0x1000_0000;
    assert(pow16(7) == 0x1000_0000) by {
        reveal_with_fuel(pow16, 8);
    }
    while k < 8
        invariant
            k <= 8,
            div as int == pow16(7 - k as int),
            s@ == hex8(n).take(k as int),
        decreases 8 - k,
    {
        proof {
            reveal_with_fuel(pow16, 9);
        }
        let d: u64 = (n as u64 / div) % 16;
        s.push(digit_char_exec(d));
        assert(s@ == hex8(n).take(k + 1));
        if k < 7 {
            div = div / 16;
        }
        k = k + 1;
    }
    assert(hex8(n).take(8) == hex8(n));
    s
}

/// Reading digits in two parts is reading the first part, then the second from its value.
proof fn lemma_scan_append(s: Seq<char>, c: char, acc: int, lo: int, hi: int)
    ensures
        scan_digits(s.push(c), acc, false, lo, hi) == match scan_digits(s, acc, false, lo, hi) {
            Ok(x) => scan_digits(seq![c], x, false, lo, hi),
            Err(e) => Err(e),
        },
    decreases s.len(),
{
    if s.len() > 0 {
        assert(s.push(c).drop_first() == s.drop_first().push(c));
        match digit_value(s[0]) {
            None => {},
            Some(d) => {
                let n = acc * 10 + d;
                if lo <= n <= hi {
                    lemma_scan_append(s.drop_first(), c, n, lo, hi);
                }
            },
        }
    } else {
        assert(s.push(c) == seq![c]);
    }
}

proof fn lemma_digit_char(d: int)
    requires
        0 <= d < 10,
    ensures
        digit_value(digit_char(d)) == Some(d),
        digit_char(d) != '+',
        digit_char(d) != '-',
{
}

/// Reading one digit.
proof fn lemma_scan_one(c: char, acc: int, d: int, hi: int)
    requires
        digit_value(c) == Some(d),
        0 <= acc * 10 + d <= hi,
    ensures
        scan_digits(seq![c], acc, false, 0, hi) == Ok::<int, IntErrorKind>(acc * 10 + d),
{
    reveal_with_fuel(scan_digits, 2);
    assert(seq![c].drop_first() =~= Seq::<char>::empty());
    assert(seq![c][0] == c);
}

/// The digits of `n` read back give `n`, within a range that holds it.
proof fn lemma_scan_decimal(n: nat, hi: int)
    requires
        n <= hi,
    ensures
        scan_digits(decimal(n), 0, false, 0, hi) == Ok::<int, IntErrorKind>(n as int),
        decimal(n).len() > 0,
        digit_value(decimal(n)[0]) is Some,
    decreases n,
{
    if n < 10 {
        lemma_digit_char(n as int);
        lemma_scan_one(digit_char(n as int), 0, n as int, hi);
    } else {
        let q = n / 10;
        let r = (n % 10) as int;
        lemma_scan_decimal(q, hi);
        lemma_digit_char(r);
        lemma_scan_append(decimal(q), digit_char(r), 0, 0, hi);
        assert(decimal(n) == decimal(q).push(digit_char(r)));
        assert(decimal(n)[0] == decimal(q)[0]);
        assert(q * 10 + r == n);
        lemma_scan_one(digit_char(r), q as int, r, hi);
    }
}

/// A `u32` written in decimal (as `format_decimal` writes it) reads back as
/// itself (as `parse_u32` reads it).
pub proof fn law_decimal_round_trip(n: u32)
    ensures
        u32_of(decimal(n as nat)) == Ok::<int, IntErrorKind>(n as int),
{
    lemma_scan_decimal(n as nat, u32::MAX as int);
    let d = decimal(n as nat);
    assert(digit_value(d[0]) is Some);
    assert(d[0] != '+');
}

} // verus!
