//! The integer readers' cores: exact base-10 parsing for every supported
//! signed and unsigned width.
//!
//! A trimmed line is a valid unsigned input when, after an optional leading
//! `+`, it is one or more digits whose value fits the target width; a valid
//! signed input also allows a leading `-`.  Each `parse_*` function accepts
//! exactly the valid lines for its type and returns the denoted value.

use vstd::prelude::*;

use crate::digits::all_digits;
use crate::digits::digits_val;
use crate::digits::parse_magnitude;
use crate::text::trim_spec;
use crate::text::trim_str;
use vstd::string::StrSliceExecFns;

verus! {

/// An unsigned token with its optional leading `+` removed.
pub open spec fn unsigned_body(s: Seq<char>) -> Seq<char> {
    if s.len() > 0 && s[0] == '+' {
        s.skip(1)
    } else {
        s
    }
}

/// A signed token with its optional leading `+` or `-` removed.
pub open spec fn signed_body(s: Seq<char>) -> Seq<char> {
    if s.len() > 0 && (s[0] == '+' || s[0] == '-') {
        s.skip(1)
    } else {
        s
    }
}

/// The token shape every unsigned reader demands: an optional `+`, then
/// one or more digits.
pub open spec fn unsigned_token_ok(s: Seq<char>) -> bool {
    unsigned_body(s).len() > 0 && all_digits(unsigned_body(s))
}

/// The token shape every signed reader demands: an optional sign, then
/// one or more digits.
pub open spec fn signed_token_ok(s: Seq<char>) -> bool {
    signed_body(s).len() > 0 && all_digits(signed_body(s))
}

/// The integer an unsigned token denotes.
pub open spec fn unsigned_token_val(s: Seq<char>) -> int {
    digits_val(unsigned_body(s))
}

/// The integer a signed token denotes.
pub open spec fn signed_token_val(s: Seq<char>) -> int {
    if s.len() > 0 && s[0] == '-' {
        -digits_val(signed_body(s))
    } else {
        digits_val(signed_body(s))
    }
}

/// A raw line is a valid input for an unsigned reader with maximum `max`
/// when its trimmed form is an unsigned token denoting at most `max`.
pub open spec fn unsigned_line_ok(line: Seq<char>, max: int) -> bool {
    unsigned_token_ok(trim_spec(line)) && unsigned_token_val(trim_spec(line)) <= max
}

/// The integer a valid unsigned line denotes.
pub open spec fn unsigned_line_val(line: Seq<char>) -> int {
    unsigned_token_val(trim_spec(line))
}

/// A raw line is a valid input for a signed reader with range
/// `[min, max]` when its trimmed form is a signed token denoting a value
/// in that range.
pub open spec fn signed_line_ok(line: Seq<char>, min: int, max: int) -> bool {
    signed_token_ok(trim_spec(line)) && min <= signed_token_val(trim_spec(line)) <= max
}

/// The integer a valid signed line denotes.
pub open spec fn signed_line_val(line: Seq<char>) -> int {
    signed_token_val(trim_spec(line))
}

/// Trims the line and scans it as an unsigned token, yielding the token's
/// magnitude when it fits in a `u128`.
fn unsigned_magnitude(line: &str) -> (r: Option<u128>)
    ensures
        match r {
            Some(m) => unsigned_token_ok(trim_spec(line@)) && unsigned_token_val(trim_spec(line@))
                == m,
            None => !(unsigned_token_ok(trim_spec(line@)) && unsigned_token_val(trim_spec(line@))
                <= u128::MAX),
        },
{
    let t = trim_str(line);
    let n = t.unicode_len();
    let start: usize = if n > 0 && t.get_char(0) == '+' {
        1
    } else {
        0
    };
    proof {
        assert(t@.skip(start as int) =~= unsigned_body(t@));
    }
    parse_magnitude(t, start)
}

/// Trims the line and scans it as a signed token, yielding the sign and the
/// magnitude when the magnitude fits in a `u128`.
fn signed_magnitude(line: &str) -> (r: Option<(bool, u128)>)
    ensures
        match r {
            Some(p) => signed_token_ok(trim_spec(line@)) && digits_val(signed_body(trim_spec(line@)))
                == p.1 && p.0 == (trim_spec(line@)[0] == '-'),
            None => !(signed_token_ok(trim_spec(line@)) && digits_val(signed_body(trim_spec(line@)))
                <= u128::MAX),
        },
{
    let t = trim_str(line);
    let n = t.unicode_len();
    let mut neg = false;
    let start: usize = if n > 0 && t.get_char(0) == '+' {
        1
    } else if n > 0 && t.get_char(0) == '-' {
        neg = true;
        1
    } else {
        0
    };
    proof {
        assert(t@.skip(start as int) =~= signed_body(t@));
    }
    match parse_magnitude(t, start) {
        Some(m) => Some((neg, m)),
        None => None,
    }
}

/// The `u8` reader's core.
pub fn parse_u8(line: &str) -> (r: Option<u8>)
    ensures
        match r {
            Some(v) => unsigned_line_ok(line@, u8::MAX as int) && v == unsigned_line_val(line@),
            None => !unsigned_line_ok(line@, u8::MAX as int),
        },
{
    match unsigned_magnitude(line) {
        Some(m) => if m <= u8::MAX as u128 {
            Some(m as u8)
        } else {
            None
        },
        None => None,
    }
}

/// The `u16` reader's core.
pub fn parse_u16(line: &str) -> (r: Option<u16>)
    ensures
        match r {
            Some(v) => unsigned_line_ok(line@, u16::MAX as int) && v == unsigned_line_val(line@),
            None => !unsigned_line_ok(line@, u16::MAX as int),
        },
{
    match unsigned_magnitude(line) {
        Some(m) => if m <= u16::MAX as u128 {
            Some(m as u16)
        } else {
            None
        },
        None => None,
    }
}

/// The `u32` reader's core.
pub fn parse_u32(line: &str) -> (r: Option<u32>)
    ensures
        match r {
            Some(v) => unsigned_line_ok(line@, u32::MAX as int) && v == unsigned_line_val(line@),
            None => !unsigned_line_ok(line@, u32::MAX as int),
        },
{
    match unsigned_magnitude(line) {
        Some(m) => if m <= u32::MAX as u128 {
            Some(m as u32)
        } else {
            None
        },
        None => None,
    }
}

/// The `u64` reader's core.
pub fn parse_u64(line: &str) -> (r: Option<u64>)
    ensures
        match r {
            Some(v) => unsigned_line_ok(line@, u64::MAX as int) && v == unsigned_line_val(line@),
            None => !unsigned_line_ok(line@, u64::MAX as int),
        },
{
    match unsigned_magnitude(line) {
        Some(m) => if m <= u64::MAX as u128 {
            Some(m as u64)
        } else {
            None
        },
        None => None,
    }
}

/// The `u128` reader's core.
pub fn parse_u128(line: &str) -> (r: Option<u128>)
    ensures
        match r {
            Some(v) => unsigned_line_ok(line@, u128::MAX as int) && v == unsigned_line_val(line@),
            None => !unsigned_line_ok(line@, u128::MAX as int),
        },
{
    unsigned_magnitude(line)
}

/// The `usize` reader's core.
pub fn parse_usize(line: &str) -> (r: Option<usize>)
    ensures
        match r {
            Some(v) => unsigned_line_ok(line@, usize::MAX as int) && v == unsigned_line_val(line@),
            None => !unsigned_line_ok(line@, usize::MAX as int),
        },
{
    match unsigned_magnitude(line) {
        Some(m) => if m <= usize::MAX as u128 {
            Some(m as usize)
        } else {
            None
        },
        None => None,
    }
}

/// The `i8` reader's core.
pub fn parse_i8(line: &str) -> (r: Option<i8>)
    ensures
        match r {
            Some(v) => signed_line_ok(line@, i8::MIN as int, i8::MAX as int) && v
                == signed_line_val(line@),
            None => !signed_line_ok(line@, i8::MIN as int, i8::MAX as int),
        },
{
    match signed_magnitude(line) {
        Some((neg, m)) => if neg {
            if m <= i8::MAX as u128 {
                Some(-(m as i8))
            } else if m == i8::MAX as u128 + 1 {
                Some(i8::MIN)
            } else {
                None
            }
        } else {
            if m <= i8::MAX as u128 {
                Some(m as i8)
            } else {
                None
            }
        },
        None => None,
    }
}

/// The `i16` reader's core.
pub fn parse_i16(line: &str) -> (r: Option<i16>)
    ensures
        match r {
            Some(v) => signed_line_ok(line@, i16::MIN as int, i16::MAX as int) && v
                == signed_line_val(line@),
            None => !signed_line_ok(line@, i16::MIN as int, i16::MAX as int),
        },
{
    match signed_magnitude(line) {
        Some((neg, m)) => if neg {
            if m <= i16::MAX as u128 {
                Some(-(m as i16))
            } else if m == i16::MAX as u128 + 1 {
                Some(i16::MIN)
            } else {
                None
            }
        } else {
            if m <= i16::MAX as u128 {
                Some(m as i16)
            } else {
                None
            }
        },
        None => None,
    }
}

/// The `i32` reader's core.
pub fn parse_i32(line: &str) -> (r: Option<i32>)
    ensures
        match r {
            Some(v) => signed_line_ok(line@, i32::MIN as int, i32::MAX as int) && v
                == signed_line_val(line@),
            None => !signed_line_ok(line@, i32::MIN as int, i32::MAX as int),
        },
{
    match signed_magnitude(line) {
        Some((neg, m)) => if neg {
            if m <= i32::MAX as u128 {
                Some(-(m as i32))
            } else if m == i32::MAX as u128 + 1 {
                Some(i32::MIN)
            } else {
                None
            }
        } else {
            if m <= i32::MAX as u128 {
                Some(m as i32)
            } else {
                None
            }
        },
        None => None,
    }
}

/// The `i64` reader's core.
pub fn parse_i64(line: &str) -> (r: Option<i64>)
    ensures
        match r {
            Some(v) => signed_line_ok(line@, i64::MIN as int, i64::MAX as int) && v
                == signed_line_val(line@),
            None => !signed_line_ok(line@, i64::MIN as int, i64::MAX as int),
        },
{
    match signed_magnitude(line) {
        Some((neg, m)) => if neg {
            if m <= i64::MAX as u128 {
                Some(-(m as i64))
            } else if m == i64::MAX as u128 + 1 {
                Some(i64::MIN)
            } else {
                None
            }
        } else {
            if m <= i64::MAX as u128 {
                Some(m as i64)
            } else {
                None
            }
        },
        None => None,
    }
}

/// The `i128` reader's core.
pub fn parse_i128(line: &str) -> (r: Option<i128>)
    ensures
        match r {
            Some(v) => signed_line_ok(line@, i128::MIN as int, i128::MAX as int) && v
                == signed_line_val(line@),
            None => !signed_line_ok(line@, i128::MIN as int, i128::MAX as int),
        },
{
    match signed_magnitude(line) {
        Some((neg, m)) => if neg {
            if m <= i128::MAX as u128 {
                Some(-(m as i128))
            } else if m == i128::MAX as u128 + 1 {
                Some(i128::MIN)
            } else {
                None
            }
        } else {
            if m <= i128::MAX as u128 {
                Some(m as i128)
            } else {
                None
            }
        },
        None => None,
    }
}

/// The `isize` reader's core.
pub fn parse_isize(line: &str) -> (r: Option<isize>)
    ensures
        match r {
            Some(v) => signed_line_ok(line@, isize::MIN as int, isize::MAX as int) && v
                == signed_line_val(line@),
            None => !signed_line_ok(line@, isize::MIN as int, isize::MAX as int),
        },
{
    match signed_magnitude(line) {
        Some((neg, m)) => if neg {
            if m <= isize::MAX as u128 {
                Some(-(m as isize))
            } else if m == isize::MAX as u128 + 1 {
                Some(isize::MIN)
            } else {
                None
            }
        } else {
            if m <= isize::MAX as u128 {
                Some(m as isize)
            } else {
                None
            }
        },
        None => None,
    }
}

} // verus!
