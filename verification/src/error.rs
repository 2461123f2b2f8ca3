//! The conditions that stop interpretation.

use vstd::prelude::*;

verus! {

/// A fatal condition. A program that raises one is malformed; the
/// interpreter reports it and leaves the machine as it was before the
/// offending operation.
#[derive(Clone, Copy, Debug, PartialEq, Eq, Structural)]
pub enum Fault {
    /// A call was made with sixteen return addresses already on the stack.
    StackOverflow,
    /// A return was made with no return address on the stack.
    StackUnderflow,
    /// An instruction fetch, a draw, a store or a load reached outside the
    /// memory it may touch.
    AddressOutOfRange,
    /// A program is longer than the memory between the entry address and
    /// the top of the address space.
    ProgramTooLarge,
}

} // verus!
