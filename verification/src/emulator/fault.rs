//! Conditions that an operation reports to its caller.
use vstd::prelude::*;

verus! {

/// What went wrong in an operation. None of these stops the machine: the
/// operation that reports one has left the state as its contract says, and
/// the next operation may follow.
#[derive(Clone, Copy, Debug, PartialEq, Eq, Structural)]
pub enum Fault {
    /// The 16-bit word is not an instruction.
    UnknownOpcode(u16),
    /// A call was made with the call stack full.
    StackOverflow,
    /// A return was made with the call stack empty.
    StackUnderflow,
    /// An access would have touched an address outside memory.
    AddressOutOfRange,
}

} // verus!
