//! Verified building blocks for the fixed-column trace lines: hexadecimal
//! and decimal rendering of register values and cycle counters, and space
//! padding. Every builder appends to a `String` and is specified against a
//! spec-level sequence of characters, so the exact text of a trace line can
//! be pinned down in contracts.

use vstd::prelude::*;
use vstd::string::StringExecFns;

verus! {

/// The single hexadecimal digit for a value below 16 (upper case, as the
/// reference logs print them). Also serves as the decimal digit for values
/// below 10.
pub open spec fn hex_digit(d: int) -> Seq<char> {
    if d == 0 {
        "0"@
    } else if d == 1 {
        "1"@
    } else if d == 2 {
        "2"@
    } else if d == 3 {
        "3"@
    } else if d == 4 {
        "4"@
    } else if d == 5 {
        "5"@
    } else if d == 6 {
        "6"@
    } else if d == 7 {
        "7"@
    } else if d == 8 {
        "8"@
    } else if d == 9 {
        "9"@
    } else if d == 10 {
        "A"@
    } else if d == 11 {
        "B"@
    } else if d == 12 {
        "C"@
    } else if d == 13 {
        "D"@
    } else if d == 14 {
        "E"@
    } else {
        "F"@
    }
}

/// Two hex digits of a byte, high digit first.
pub open spec fn hex2(v: u8) -> Seq<char> {
    hex_digit(v as int / 16) + hex_digit(v as int % 16)
}

/// Four hex digits of a 16-bit value, high digit first.
pub open spec fn hex4(v: u16) -> Seq<char> {
    hex_digit(v as int / 4096) + hex_digit(v as int / 256 % 16) + hex_digit(v as int / 16 % 16)
        + hex_digit(v as int % 16)
}

/// The decimal rendering of a non-negative number, no leading zeros
/// (a single "0" for zero).
pub open spec fn dec_seq(n: int) -> Seq<char>
    decreases n,
{
    if n < 10 {
        hex_digit(n)
    } else {
        dec_seq(n / 10) + hex_digit(n % 10)
    }
}

/// `n` space characters.
pub open spec fn spaces(n: int) -> Seq<char>
    decreases n,
{
    if n <= 0 {
        Seq::<char>::empty()
    } else {
        spaces(n - 1) + " "@
    }
}

/// "0" or "1" for a flag bit.
pub open spec fn bit_char(b: bool) -> Seq<char> {
    if b {
        "1"@
    } else {
        "0"@
    }
}

fn hex_digit_str(d: u8) -> (r: &'static str)
    requires
        d < 16,
    ensures
        r@ == hex_digit(d as int),
{
    match d {
        0 => "0",
        1 => "1",
        2 => "2",
        3 => "3",
        4 => "4",
        5 => "5",
        6 => "6",
        7 => "7",
        8 => "8",
        9 => "9",
        10 => "A",
        11 => "B",
        12 => "C",
        13 => "D",
        14 => "E",
        _ => "F",
    }
}

/// Appends the two hex digits of `v`.
pub fn push_hex2(s: &mut String, v: u8)
    ensures
        final(s)@ == old(s)@ + hex2(v),
{
    s.append(hex_digit_str(v / 16));
    s.append(hex_digit_str(v % 16));
    assert(final(s)@ =~= old(s)@ + hex2(v));
}

/// Appends the four hex digits of `v`.
pub fn push_hex4(s: &mut String, v: u16)
    ensures
        final(s)@ == old(s)@ + hex4(v),
{
    s.append(hex_digit_str((v / 4096) as u8));
    s.append(hex_digit_str((v / 256 % 16) as u8));
    s.append(hex_digit_str((v / 16 % 16) as u8));
    s.append(hex_digit_str((v % 16) as u8));
    assert(final(s)@ =~= old(s)@ + hex4(v));
}

/// Appends the decimal rendering of `n`.
pub fn push_dec(s: &mut String, n: u128)
    ensures
        final(s)@ == old(s)@ + dec_seq(n as int),
    decreases n,
{
    if n < 10 {
        s.append(hex_digit_str(n as u8));
    } else {
        push_dec(s, n / 10);
        s.append(hex_digit_str((n % 10) as u8));
        assert(final(s)@ =~= old(s)@ + dec_seq(n as int));
    }
}

/// Appends "0" or "1" for a flag bit.
pub fn push_bit(s: &mut String, b: bool)
    ensures
        final(s)@ == old(s)@ + bit_char(b),
{
    if b {
        s.append("1");
    } else {
        s.append("0");
    }
}

/// Appends `n` spaces.
pub fn push_spaces(s: &mut String, n: usize)
    ensures
        final(s)@ == old(s)@ + spaces(n as int),
{
    let ghost s0 = s@;
    let mut i: usize = 0;
    assert(s@ =~= s0 + spaces(0));
    while i < n
        invariant
            i <= n,
            s@ == s0 + spaces(i as int),
        decreases n - i,
    {
        s.append(" ");
        i = i + 1;
        assert(s@ =~= s0 + spaces(i as int));
    }
}

} // verus!
