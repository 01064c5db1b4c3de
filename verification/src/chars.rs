//! Character classes the input normalizers are built from: whitespace,
//! decimal digits, ASCII case folding, and the decimal-separator swap.

use vstd::prelude::*;

verus! {

/// A character that trimming removes: the Unicode `White_Space` set.
pub open spec fn is_space(c: char) -> bool {
    let u = c as u32;
    u == 0x20 || (0x09 <= u && u <= 0x0D) || u == 0x85 || u == 0xA0 || u == 0x1680 || (0x2000
        <= u && u <= 0x200A) || u == 0x2028 || u == 0x2029 || u == 0x202F || u == 0x205F || u
        == 0x3000
}

/// An ASCII decimal digit.
pub open spec fn is_digit(c: char) -> bool {
    0x30 <= c as u32 && c as u32 <= 0x39
}

/// The numeric value of an ASCII decimal digit.
pub open spec fn digit_val(c: char) -> int {
    c as u32 - 0x30
}

/// `c` reads as the (lower-case ASCII) character `d` under case-insensitive
/// comparison: either `c` is `d` itself, or `c` is its upper-case form.
pub open spec fn lower_matches(c: char, d: char) -> bool {
    c == d || (0x41 <= c as u32 && c as u32 <= 0x5A && c as u32 + 0x20 == d as u32)
}

/// The decimal-separator substitution: a comma becomes a dot, anything else
/// is left as it is.
pub open spec fn swap_comma(c: char) -> char {
    if c == ',' {
        '.'
    } else {
        c
    }
}

pub fn space_char(c: char) -> (b: bool)
    ensures
        b == is_space(c),
{
    let u = c as u32;
    u == 0x20 || (0x09 <= u && u <= 0x0D) || u == 0x85 || u == 0xA0 || u == 0x1680 || (0x2000
        <= u && u <= 0x200A) || u == 0x2028 || u == 0x2029 || u == 0x202F || u == 0x205F || u
        == 0x3000
}

pub fn digit_char(c: char) -> (b: bool)
    ensures
        b == is_digit(c),
{
    let u = c as u32;
    0x30 <= u && u <= 0x39
}

pub fn digit_value(c: char) -> (v: u32)
    requires
        is_digit(c),
    ensures
        v == digit_val(c),
{
    c as u32 - 0x30
}

pub fn matches_lower(c: char, d: char) -> (b: bool)
    ensures
        b == lower_matches(c, d),
{
    let u = c as u32;
    c == d || (0x41 <= u && u <= 0x5A && u + 0x20 == d as u32)
}

} // verus!
