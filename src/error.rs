use vstd::prelude::*;

verus! {

/// The fatal conditions of the machine. None of them is recovered from: the
/// host stops the run and reports the condition.
#[derive(Debug, Clone, Copy, PartialEq, Eq, Structural)]
pub enum Chip8Error {
    /// A memory access at an address beyond `0xFFF`.
    OutOfBounds(usize),
    /// A load that does not fit below address `0x1000`.
    ProgramTooLarge,
    /// A call with all sixteen stack slots in use.
    StackOverflow,
    /// A return with an empty call stack.
    StackUnderflow,
    /// An instruction word that names no operation, with the address it was
    /// fetched from.
    InvalidOpcode { opcode: u16, addr: u16 },
}

} // verus!
