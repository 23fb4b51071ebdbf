//! Rendering of unsigned numbers as decimal and upper-case hexadecimal text,
//! proved against recursive character-sequence models.

use vstd::prelude::*;
use vstd::string::StringExecFns;

verus! {

/// The character that renders one digit value (hexadecimal covers decimal).
pub open spec fn digit_char(d: nat) -> char {
    if d == 0 {
        '0'
    } else if d == 1 {
        '1'
    } else if d == 2 {
        '2'
    } else if d == 3 {
        '3'
    } else if d == 4 {
        '4'
    } else if d == 5 {
        '5'
    } else if d == 6 {
        '6'
    } else if d == 7 {
        '7'
    } else if d == 8 {
        '8'
    } else if d == 9 {
        '9'
    } else if d == 10 {
        'A'
    } else if d == 11 {
        'B'
    } else if d == 12 {
        'C'
    } else if d == 13 {
        'D'
    } else if d == 14 {
        'E'
    } else {
        'F'
    }
}

/// Decimal rendering of `v`, without leading zeroes (a lone zero for zero).
pub open spec fn dec_str(v: nat) -> Seq<char>
    decreases v,
{
    if v < 10 {
        seq![digit_char(v)]
    } else {
        dec_str(v / 10) + seq![digit_char(v % 10)]
    }
}

/// Hexadecimal rendering of `v`, without leading zeroes (a lone zero for zero).
pub open spec fn hex_str(v: nat) -> Seq<char>
    decreases v,
{
    if v < 16 {
        seq![digit_char(v)]
    } else {
        hex_str(v / 16) + seq![digit_char(v % 16)]
    }
}

/// Hexadecimal rendering of `v`, zero-padded on the left to exactly `w` digits
/// (the digits above the width are dropped; eight digits cover every `u32`).
pub open spec fn hex_str_w(v: nat, w: nat) -> Seq<char>
    decreases w,
{
    if w <= 1 {
        seq![digit_char(v % 16)]
    } else {
        hex_str_w(v / 16, (w - 1) as nat) + seq![digit_char(v % 16)]
    }
}

/// The one-character string for a digit value below sixteen.
fn digit_str(d: u32) -> (r: &'static str)
    requires
        d < 16,
    ensures
        r@ == seq![digit_char(d as nat)],
{
    proof {
        reveal_strlit("0");
        reveal_strlit("1");
        reveal_strlit("2");
        reveal_strlit("3");
        reveal_strlit("4");
        reveal_strlit("5");
        reveal_strlit("6");
        reveal_strlit("7");
        reveal_strlit("8");
        reveal_strlit("9");
        reveal_strlit("A");
        reveal_strlit("B");
        reveal_strlit("C");
        reveal_strlit("D");
        reveal_strlit("E");
        reveal_strlit("F");
    }
    let r = match d {
        0 => "0",
        1 => "1",
        2 => "2",
        3 => "3",
        4 => "4",
        5 => "5",
        6 => "6",
        7 => "7",
        8 => "8",
        9 => "9",
        10 => "A",
        11 => "B",
        12 => "C",
        13 => "D",
        14 => "E",
        _ => "F",
    };
    proof {
        assert(r@ =~= seq![digit_char(d as nat)]);
    }
    r
}

/// Appends the decimal rendering of `v` to `dst`.
pub fn push_dec(dst: &mut String, v: u32)
    ensures
        final(dst)@ == old(dst)@ + dec_str(v as nat),
    decreases v,
{
    if v >= 10 {
        push_dec(dst, v / 10);
    }
    dst.append(digit_str(v % 10));
}

/// Appends the unpadded hexadecimal rendering of `v` to `dst`.
pub fn push_hex(dst: &mut String, v: u32)
    ensures
        final(dst)@ == old(dst)@ + hex_str(v as nat),
    decreases v,
{
    if v >= 16 {
        push_hex(dst, v / 16);
    }
    dst.append(digit_str(v % 16));
}

/// Appends the hexadecimal rendering of `v`, zero-padded to `w` digits, to `dst`.
pub fn push_hex_w(dst: &mut String, v: u32, w: u32)
    requires
        w >= 1,
    ensures
        final(dst)@ == old(dst)@ + hex_str_w(v as nat, w as nat),
    decreases w,
{
    if w > 1 {
        push_hex_w(dst, v / 16, w - 1);
    }
    dst.append(digit_str(v % 16));
}

} // verus!
