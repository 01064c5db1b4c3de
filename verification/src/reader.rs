//! The prompted retry reader, as one generic pattern.
//!
//! Every reader is the same loop instantiated at a target kind: read a
//! line, try to interpret it, return the value on success, report and
//! retry on failure.  `parse_line` is the loop body's decision: it accepts
//! exactly the valid lines for the kind and returns the denoted value.
//! `scan_lines` is the loop itself run over a finite sequence of lines,
//! and its contract is the retry invariant: the reader consumes exactly
//! the invalid lines before the first valid one, and returns that line's
//! value.  The unverified shell repeats the same decision over the
//! unbounded console stream.

use vstd::prelude::*;

use crate::boolean::bool_line_ok;
use crate::boolean::bool_line_val;
use crate::boolean::parse_bool;
use crate::float_text::float_line_ok;
use crate::float_text::float_norm;
use crate::float_text::normalize_float_line;
use crate::ints::parse_i128;
use crate::ints::parse_i16;
use crate::ints::parse_i32;
use crate::ints::parse_i64;
use crate::ints::parse_i8;
use crate::ints::parse_isize;
use crate::ints::parse_u128;
use crate::ints::parse_u16;
use crate::ints::parse_u32;
use crate::ints::parse_u64;
use crate::ints::parse_u8;
use crate::ints::parse_usize;
use crate::ints::signed_line_ok;
use crate::ints::signed_line_val;
use crate::ints::unsigned_line_ok;
use crate::ints::unsigned_line_val;
use crate::text::char_line_ok;
use crate::text::char_line_val;
use crate::text::parse_char;
use crate::text::trim_spec;
use crate::text::trimmed_line;
use vstd::string::StringExecFns;

verus! {

/// The target type a reader is instantiated at.
#[derive(Clone, Copy, PartialEq, Eq, Debug)]
pub enum Kind {
    I8,
    I16,
    I32,
    I64,
    I128,
    Isize,
    U8,
    U16,
    U32,
    U64,
    U128,
    Usize,
    F32,
    F64,
    Bool,
    Char,
    Text,
    RawText,
}

/// A reader's result.  The floating-point kinds carry the normalized
/// literal; turning it into a binary value is the unverified shell's one
/// remaining step.
#[derive(PartialEq, Eq, Debug)]
pub enum Value {
    I8(i8),
    I16(i16),
    I32(i32),
    I64(i64),
    I128(i128),
    Isize(isize),
    U8(u8),
    U16(u16),
    U32(u32),
    U64(u64),
    U128(u128),
    Usize(usize),
    FloatText(String),
    Bool(bool),
    Char(char),
    Text(String),
}

/// Which raw lines the reader for `k` accepts.
pub open spec fn line_ok(k: Kind, line: Seq<char>) -> bool {
    match k {
        Kind::I8 => signed_line_ok(line, i8::MIN as int, i8::MAX as int),
        Kind::I16 => signed_line_ok(line, i16::MIN as int, i16::MAX as int),
        Kind::I32 => signed_line_ok(line, i32::MIN as int, i32::MAX as int),
        Kind::I64 => signed_line_ok(line, i64::MIN as int, i64::MAX as int),
        Kind::I128 => signed_line_ok(line, i128::MIN as int, i128::MAX as int),
        Kind::Isize => signed_line_ok(line, isize::MIN as int, isize::MAX as int),
        Kind::U8 => unsigned_line_ok(line, u8::MAX as int),
        Kind::U16 => unsigned_line_ok(line, u16::MAX as int),
        Kind::U32 => unsigned_line_ok(line, u32::MAX as int),
        Kind::U64 => unsigned_line_ok(line, u64::MAX as int),
        Kind::U128 => unsigned_line_ok(line, u128::MAX as int),
        Kind::Usize => unsigned_line_ok(line, usize::MAX as int),
        Kind::F32 => float_line_ok(line),
        Kind::F64 => float_line_ok(line),
        Kind::Bool => bool_line_ok(line),
        Kind::Char => char_line_ok(line),
        Kind::Text => true,
        Kind::RawText => true,
    }
}

/// Which value the reader for `k` returns from a valid line `line`.
pub open spec fn value_matches(k: Kind, line: Seq<char>, v: Value) -> bool {
    match k {
        Kind::I8 => v matches Value::I8(x) && x as int == signed_line_val(line),
        Kind::I16 => v matches Value::I16(x) && x as int == signed_line_val(line),
        Kind::I32 => v matches Value::I32(x) && x as int == signed_line_val(line),
        Kind::I64 => v matches Value::I64(x) && x as int == signed_line_val(line),
        Kind::I128 => v matches Value::I128(x) && x as int == signed_line_val(line),
        Kind::Isize => v matches Value::Isize(x) && x as int == signed_line_val(line),
        Kind::U8 => v matches Value::U8(x) && x as int == unsigned_line_val(line),
        Kind::U16 => v matches Value::U16(x) && x as int == unsigned_line_val(line),
        Kind::U32 => v matches Value::U32(x) && x as int == unsigned_line_val(line),
        Kind::U64 => v matches Value::U64(x) && x as int == unsigned_line_val(line),
        Kind::U128 => v matches Value::U128(x) && x as int == unsigned_line_val(line),
        Kind::Usize => v matches Value::Usize(x) && x as int == unsigned_line_val(line),
        Kind::F32 => v matches Value::FloatText(t) && t@ == float_norm(line),
        Kind::F64 => v matches Value::FloatText(t) && t@ == float_norm(line),
        Kind::Bool => v matches Value::Bool(x) && x == bool_line_val(line),
        Kind::Char => v matches Value::Char(x) && x == char_line_val(line),
        Kind::Text => v matches Value::Text(t) && t@ == trim_spec(line),
        Kind::RawText => v matches Value::Text(t) && t@ == line,
    }
}

/// One iteration's decision: interpret a single raw line at kind `k`.
/// Succeeds exactly on the valid lines, returning the denoted value.
pub fn parse_line(k: Kind, line: &str) -> (r: Option<Value>)
    ensures
        r is Some <==> line_ok(k, line@),
        match r {
            Some(v) => value_matches(k, line@, v),
            None => true,
        },
{
    match k {
        Kind::I8 => match parse_i8(line) {
            Some(v) => Some(Value::I8(v)),
            None => None,
        },
        Kind::I16 => match parse_i16(line) {
            Some(v) => Some(Value::I16(v)),
            None => None,
        },
        Kind::I32 => match parse_i32(line) {
            Some(v) => Some(Value::I32(v)),
            None => None,
        },
        Kind::I64 => match parse_i64(line) {
            Some(v) => Some(Value::I64(v)),
            None => None,
        },
        Kind::I128 => match parse_i128(line) {
            Some(v) => Some(Value::I128(v)),
            None => None,
        },
        Kind::Isize => match parse_isize(line) {
            Some(v) => Some(Value::Isize(v)),
            None => None,
        },
        Kind::U8 => match parse_u8(line) {
            Some(v) => Some(Value::U8(v)),
            None => None,
        },
        Kind::U16 => match parse_u16(line) {
            Some(v) => Some(Value::U16(v)),
            None => None,
        },
        Kind::U32 => match parse_u32(line) {
            Some(v) => Some(Value::U32(v)),
            None => None,
        },
        Kind::U64 => match parse_u64(line) {
            Some(v) => Some(Value::U64(v)),
            None => None,
        },
        Kind::U128 => match parse_u128(line) {
            Some(v) => Some(Value::U128(v)),
            None => None,
        },
        Kind::Usize => match parse_usize(line) {
            Some(v) => Some(Value::Usize(v)),
            None => None,
        },
        Kind::F32 => match normalize_float_line(line) {
            Some(t) => Some(Value::FloatText(t)),
            None => None,
        },
        Kind::F64 => match normalize_float_line(line) {
            Some(t) => Some(Value::FloatText(t)),
            None => None,
        },
        Kind::Bool => match parse_bool(line) {
            Some(v) => Some(Value::Bool(v)),
            None => None,
        },
        Kind::Char => match parse_char(line) {
            Some(v) => Some(Value::Char(v)),
            None => None,
        },
        Kind::Text => Some(Value::Text(trimmed_line(line))),
        Kind::RawText => Some(Value::Text(String::from_str(line))),
    }
}

/// The retry loop over a finite sequence of input lines: try each line in
/// turn, and stop at the first valid one.  On success the result names how
/// many lines were consumed — exactly the invalid ones plus the accepted
/// line — and carries that line's value; when no line is valid the whole
/// sequence is consumed without a result.
pub fn scan_lines(k: Kind, lines: &Vec<String>) -> (r: Option<(usize, Value)>)
    ensures
        match r {
            Some(p) => {
                let n = p.0 as int;
                &&& 1 <= n <= lines@.len()
                &&& line_ok(k, lines@[n - 1]@)
                &&& value_matches(k, lines@[n - 1]@, p.1)
                &&& forall|j: int| 0 <= j < n - 1 ==> !line_ok(k, lines@[j]@)
            },
            None => forall|j: int| 0 <= j < lines@.len() ==> !line_ok(k, lines@[j]@),
        },
{
    let mut i: usize = 0;
    while i < lines.len()
        invariant
            i <= lines@.len(),
            forall|j: int| 0 <= j < i ==> !line_ok(k, lines@[j]@),
        decreases lines@.len() - i,
    {
        match parse_line(k, lines[i].as_str()) {
            Some(v) => {
                return Some((i + 1, v));
            },
            None => {
                i = i + 1;
            },
        }
    }
    None
}

/// The retry invariant: a reader that stops at its first valid line is
/// deterministic in how much input it consumes.  If the first `k` lines
/// are invalid and line `k` is valid, then any count `n` of consumed lines
/// that satisfies the reader's contract — the consumed lines end with a
/// valid one and all before it are invalid — equals `k + 1`.
pub proof fn lemma_retry_invariant(target: Kind, lines: Seq<Seq<char>>, k: int, n: int)
    requires
        0 <= k < lines.len(),
        forall|i: int| 0 <= i < k ==> !line_ok(target, lines[i]),
        line_ok(target, lines[k]),
        1 <= n <= lines.len(),
        line_ok(target, lines[n - 1]),
        forall|j: int| 0 <= j < n - 1 ==> !line_ok(target, lines[j]),
    ensures
        n == k + 1,
{
    if n - 1 < k {
        assert(!line_ok(target, lines[n - 1]));
    } else if n - 1 > k {
        assert(!line_ok(target, lines[k]));
    }
}

/// A valid first line is accepted at once: the reader consumes exactly
/// that one line.
pub proof fn lemma_immediate_success(target: Kind, lines: Seq<Seq<char>>, n: int)
    requires
        lines.len() > 0,
        line_ok(target, lines[0]),
        1 <= n <= lines.len(),
        line_ok(target, lines[n - 1]),
        forall|j: int| 0 <= j < n - 1 ==> !line_ok(target, lines[j]),
    ensures
        n == 1,
{
    lemma_retry_invariant(target, lines, 0, n);
}

} // verus!
