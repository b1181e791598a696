use vstd::prelude::*;

verus! {

/// Faults that the interpreter reports instead of carrying on.
#[derive(Debug, Clone, Copy, PartialEq, Eq)]
pub enum Error {
    /// The program image could not be read (reported by whatever loads it).
    ProgramLoad,
    /// `00EE` was executed with an empty call stack.
    StackUnderflow,
    /// No handler matches the decoded instruction (the instruction word is kept).
    UnimplementedOpcode(u16),
    /// An instruction would read or write outside the 4096 bytes of memory.
    OutOfBoundsAccess,
}

} // verus!
