//! Typed failures of the loader and of the interpreter.

use vstd::prelude::*;

verus! {

/// Why a ROM image could not be placed in memory.
#[derive(Clone, Copy, Debug, PartialEq, Eq, Structural)]
pub enum LoadError {
    /// The image does not fit between the program start and the end of memory.
    TooLarge,
}

/// A fatal condition met while executing an instruction.
#[derive(Clone, Copy, Debug, PartialEq, Eq, Structural)]
pub enum ExecError {
    /// A memory access reached past the last address.
    OutOfBounds,
    /// A return was executed with no saved return address.
    StackUnderflow,
    /// A call was executed with the return stack already full.
    StackOverflow,
}

} // verus!
