//! Errors of the interpreter.

use vstd::prelude::*;

verus! {

/// The ways in which the machine refuses to go on.
#[derive(Clone, Copy, Debug, PartialEq, Eq, Structural)]
pub enum CpuError {
    /// The two-byte word at the program counter does not lie inside memory,
    /// or a relative move would take the program counter out of its range.
    PcOutOfBounds,
    /// A subroutine call found the call stack full.
    StackOverflow,
    /// A return found the call stack empty.
    StackUnderflow,
    /// An instruction addressed memory past its end through the index register.
    MemoryOutOfBounds,
    /// A program image is larger than the memory above the load address.
    RomTooLarge,
}

impl CpuError {
    /// Whether a session cannot go on after this error. A full or empty call
    /// stack only costs the program the call or the return that met it;
    /// every other error leaves nothing sensible to run.
    pub open spec fn fatal(self) -> bool {
        !(self is StackOverflow || self is StackUnderflow)
    }

    /// Whether a session has to end on this error.
    pub fn is_fatal(&self) -> (fatal: bool)
        ensures
            fatal == self.fatal(),
    {
        match self {
            CpuError::StackOverflow => false,
            CpuError::StackUnderflow => false,
            CpuError::PcOutOfBounds => true,
            CpuError::MemoryOutOfBounds => true,
            CpuError::RomTooLarge => true,
        }
    }
}

} // verus!
