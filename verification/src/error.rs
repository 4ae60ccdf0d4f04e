//! The failure kinds shared by the interpreter and the code generator.

use vstd::prelude::*;

verus! {

/// Why an evaluation or a code generation was abandoned.
#[derive(Debug, Clone, Copy, PartialEq, Eq, Structural)]
pub enum Error {
    /// A memory address, a memory range, a constant index or a buffer index
    /// lies outside what exists.
    Address,
    /// A division by zero.
    Arithmetic,
    /// A return with an empty call stack, or a jump past the program's end.
    Control,
    /// Outside work failed, or delivered something other than what was asked.
    Io,
    /// A word of a constant is no Unicode scalar value.
    Encoding,
    /// The code generator met an opcode that it cannot lower.
    Unsupported,
}

} // verus!
