//! What ends a run early.

use vstd::prelude::*;

verus! {

/// The conditions that end a run. None is recovered inside the machine.
#[derive(Clone, Copy, Debug, PartialEq, Eq)]
pub enum Chip8Error {
    /// The word at `pc - 2` is no instruction. `pc` is the program counter
    /// after the fetch.
    UnknownOpcode { opcode: u16, pc: u16 },
    /// A call of a machine code routine.
    MachineCodeUnsupported,
    /// A return with an empty stack.
    StackUnderflow,
    /// A call with a full stack.
    StackOverflow,
    /// A plane selection beyond the planes 1 and 2.
    InvalidPlane(u8),
    /// The program asked to exit, with an exit code or without.
    Exit(Option<u8>),
}

/// Whether a result is the error of a full stack, the one error that
/// leaves the machine in no state to go on from.
pub open spec fn overflowed(result: Result<(), Chip8Error>) -> bool {
    result == Err::<(), Chip8Error>(Chip8Error::StackOverflow)
}

} // verus!
