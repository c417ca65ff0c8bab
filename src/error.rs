use vstd::prelude::*;

verus! {

/// Why a step, a load or a key update was refused. A refused operation
/// leaves the machine exactly as it found it.
#[derive(Debug, Clone, Copy, PartialEq, Eq, Structural)]
pub enum CpuError {
    /// The instruction word matches no instruction form.
    UnknownOpcode(u16),
    /// A fetch, draw, BCD conversion or block load/store would touch memory
    /// outside the 4096 addressable bytes.
    OutOfBoundsAddress,
    /// A call with all sixteen stack entries already in use.
    StackOverflow,
    /// A return with an empty stack.
    StackUnderflow,
    /// A key index outside `0..16`.
    InvalidKeyIndex,
    /// A program image larger than the program area.
    ProgramTooLarge,
}

} // verus!
