//! Verified core of a console input-acquisition library.
//!
//! A reader repeatedly prompts for a line of text, normalizes it
//! (trimming, decimal-separator substitution, case folding), and tries to
//! interpret it as a value of the requested type, retrying on invalid input.
//! This crate holds the verified part of that pattern: for every supported
//! target type, a parse function whose contract states exactly which lines
//! are valid and which value a valid line denotes, together with the model
//! of the retry loop itself.  The blocking I/O shell around it is ordinary
//! unverified code that feeds lines in and writes messages out.

use vstd::prelude::*;

pub mod boolean;
pub mod chars;
pub mod digits;
pub mod float_text;
pub mod ints;
pub mod messages;
pub mod reader;
pub mod text;

verus! {

} // verus!
