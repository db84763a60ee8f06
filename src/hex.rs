//! Hexadecimal text: fixed-width digit fields and integer parsing.
use vstd::prelude::*;

verus! {

/// The upper-case hexadecimal digit for `d`, which lies in `0..16`.
pub open spec fn hex_digit(d: int) -> char {
    if d < 10 {
        ('0' as int + d) as char
    } else {
        ('A' as int + (d - 10)) as char
    }
}

/// The upper-case hexadecimal text of `n`, padded with zeros on the left to
/// at least `w` digits (`format!("{:0w$X}", n)`). With `w == 0` the text of
/// zero is empty.
pub open spec fn hex_pad(n: nat, w: nat) -> Seq<char>
    decreases n, w,
{
    if n == 0 && w == 0 {
        Seq::empty()
    } else {
        hex_pad(n / 16, if w > 0 { (w - 1) as nat } else { 0 }).push(hex_digit((n % 16) as int))
    }
}

/// A 32-bit value as it is printed in hexadecimal: negative values in two's
/// complement.
pub open spec fn wrap32(v: int) -> nat {
    if v < 0 {
        (v + 0x1_0000_0000) as nat
    } else {
        v as nat
    }
}

/// The text of the single hexadecimal digit `d`.
fn digit_text(d: u64) -> (r: &'static str)
    requires
        d < 16,
    ensures
        r@ == seq![hex_digit(d as int)],
{
    if d == 0 {
        proof { reveal_strlit("0"); }
        "0"
    } else if d == 1 {
        proof { reveal_strlit("1"); }
        "1"
    } else if d == 2 {
        proof { reveal_strlit("2"); }
        "2"
    } else if d == 3 {
        proof { reveal_strlit("3"); }
        "3"
    } else if d == 4 {
        proof { reveal_strlit("4"); }
        "4"
    } else if d == 5 {
        proof { reveal_strlit("5"); }
        "5"
    } else if d == 6 {
        proof { reveal_strlit("6"); }
        "6"
    } else if d == 7 {
        proof { reveal_strlit("7"); }
        "7"
    } else if d == 8 {
        proof { reveal_strlit("8"); }
        "8"
    } else if d == 9 {
        proof { reveal_strlit("9"); }
        "9"
    } else if d == 10 {
        proof { reveal_strlit("A"); }
        "A"
    } else if d == 11 {
        proof { reveal_strlit("B"); }
        "B"
    } else if d == 12 {
        proof { reveal_strlit("C"); }
        "C"
    } else if d == 13 {
        proof { reveal_strlit("D"); }
        "D"
    } else if d == 14 {
        proof { reveal_strlit("E"); }
        "E"
    } else {
        proof { reveal_strlit("F"); }
        "F"
    }
}

/// Upper-case hexadecimal text of `n`, zero-padded to at least `width` digits.
pub fn hex_text(n: u64, width: usize) -> (r: String)
    ensures
        r@ == hex_pad(n as nat, width as nat),
    decreases n, width,
{
    if n == 0 && width == 0 {
        String::new()
    } else {
        let rest = if width > 0 { width - 1 } else { 0 };
        let mut r = hex_text(n / 16, rest);
        r.append(digit_text(n % 16));
        r
    }
}

/// The hexadecimal field of width `width` for a 32-bit value, as
/// `format!("{:0width$X}", v)` prints an `i32`.
pub fn hex_field(v: i64, width: usize) -> (r: String)
    requires
        -0x1_0000_0000 < v < 0x1_0000_0000,
    ensures
        r@ == hex_pad(wrap32(v as int), width as nat),
{
    let u: u64 = if v < 0 { (v + 0x1_0000_0000) as u64 } else { v as u64 };
    hex_text(u, width)
}

} // verus!
