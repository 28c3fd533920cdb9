//! A small textual command interpreter for a terminal-like input box.
//!
//! A caller hands in one line of text; the interpreter expands the
//! directives embedded in it (escape tokens, variable references,
//! randomness, inline substring replacement), splits the line into
//! compound segments, dispatches each segment to a named command
//! handler, and returns the rendered output text.
//!
//! Every public operation carries a contract that pins its result down
//! to a mathematical model of the interpreter, written as spec
//! functions over `Seq<char>`.

use vstd::prelude::*;

pub mod arith;
pub mod chars;
pub mod dec;
pub mod expand;
pub mod interp;
pub mod laws;
pub mod numtext;
pub mod registry;
pub mod state;

pub use interp::Interpreter;
pub use interp::MAX_DEPTH;

verus! {

/// Character class used to delimit whitespace-separated tokens.
pub open spec fn spec_is_space(c: char) -> bool {
    c == ' ' || c == '\t' || c == '\n' || c == '\r'
}

/// Executable mirror of [`spec_is_space`].
pub fn is_space_ch(c: char) -> (r: bool)
    ensures
        r == spec_is_space(c),
{
    c == ' ' || c == '\t' || c == '\n' || c == '\r'
}

} // verus!
