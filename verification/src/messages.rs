//! Error-message selection.
//!
//! On invalid input a reader displays a message before retrying: the
//! caller's custom message when one was supplied, and otherwise the
//! default message of the reader's kind, which names the expected value
//! kind and its width.  The kinds whose readers take no error message
//! have no default and map to the empty string.

use vstd::prelude::*;

use crate::reader::Kind;

verus! {

/// The default error message of each reader kind.
pub open spec fn default_message_spec(k: Kind) -> Seq<char> {
    match k {
        Kind::I8 => "Please enter a valid number (8 bits)."@,
        Kind::I16 => "Please enter a valid number (16 bits)."@,
        Kind::I32 => "Please enter a valid number (32 bits)."@,
        Kind::I64 => "Please enter a valid number (64 bits)."@,
        Kind::I128 => "Please enter a valid number (128 bits)."@,
        Kind::Isize => "Please enter a valid number (32/64 bits)."@,
        Kind::U8 => "Please enter a valid positive number (8 bits)."@,
        Kind::U16 => "Please enter a valid positive number (16 bits)."@,
        Kind::U32 => "Please enter a valid positive number (32 bits)."@,
        Kind::U64 => "Please enter a valid positive number (64 bits)."@,
        Kind::U128 => "Please enter a valid positive number (128 bits)."@,
        Kind::Usize => "Please enter a valid positive number (32/64 bits)."@,
        Kind::F32 => "Please enter a valid real number (32 bits)."@,
        Kind::F64 => "Please enter a valid real number (64 bits)."@,
        Kind::Bool => "Please enter a valid boolean value (true / false)."@,
        Kind::Char => ""@,
        Kind::Text => ""@,
        Kind::RawText => ""@,
    }
}

/// The default error message of each reader kind.
pub fn default_message(k: Kind) -> (r: &'static str)
    ensures
        r@ == default_message_spec(k),
{
    match k {
        Kind::I8 => "Please enter a valid number (8 bits).",
        Kind::I16 => "Please enter a valid number (16 bits).",
        Kind::I32 => "Please enter a valid number (32 bits).",
        Kind::I64 => "Please enter a valid number (64 bits).",
        Kind::I128 => "Please enter a valid number (128 bits).",
        Kind::Isize => "Please enter a valid number (32/64 bits).",
        Kind::U8 => "Please enter a valid positive number (8 bits).",
        Kind::U16 => "Please enter a valid positive number (16 bits).",
        Kind::U32 => "Please enter a valid positive number (32 bits).",
        Kind::U64 => "Please enter a valid positive number (64 bits).",
        Kind::U128 => "Please enter a valid positive number (128 bits).",
        Kind::Usize => "Please enter a valid positive number (32/64 bits).",
        Kind::F32 => "Please enter a valid real number (32 bits).",
        Kind::F64 => "Please enter a valid real number (64 bits).",
        Kind::Bool => "Please enter a valid boolean value (true / false).",
        Kind::Char => "",
        Kind::Text => "",
        Kind::RawText => "",
    }
}

/// The message a reader displays on invalid input: exactly the custom
/// message when one was supplied, and exactly the fallback otherwise.
pub fn choose_message<'a>(custom: Option<&'a str>, fallback: &'a str) -> (r: &'a str)
    ensures
        r@ == match custom {
            Some(c) => c@,
            None => fallback@,
        },
{
    match custom {
        Some(c) => c,
        None => fallback,
    }
}

} // verus!
