use vstd::prelude::*;

verus! {

/// The fatal fault kinds of the machine.
///
/// A memory access outside the 4096-byte address space, a call past stack
/// depth 16, and a return on an empty stack each end the emulation session;
/// they are surfaced to the host as distinguishable errors rather than
/// silently truncated.
#[derive(Clone, Copy, Debug, PartialEq, Eq, Structural)]
pub enum Fault {
    OutOfBounds,
    StackOverflow,
    StackUnderflow,
}

} // verus!
