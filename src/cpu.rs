use vstd::prelude::*;

verus! {

/// Address at which a loaded program starts, and the initial program counter.
pub const PROGRAM_START: u16 = 0x200;

/// Number of return addresses the call stack holds.
pub const STACK_DEPTH: u16 = 16;

/// The register file: sixteen 8-bit registers `V0`..`VF`, the index register,
/// the program counter and the stack pointer.
///
/// `VF` doubles as the flag register of arithmetic, shift and draw
/// instructions. `sp` counts the return addresses on the call stack.
pub struct Register {
    pub v: [u8; 16],
    pub index: u16,
    pub pc: u16,
    pub sp: u16,
}

impl Register {
    /// All registers zero, the program counter at the start of the program.
    pub fn new() -> (r: Register)
        ensures
            forall|k: int| 0 <= k < 16 ==> #[trigger] r.v[k] == 0,
            r.index == 0,
            r.pc == PROGRAM_START,
            r.sp == 0,
    {
        Register { v: [0u8; 16], index: 0, pc: PROGRAM_START, sp: 0 }
    }
}

/// Processor state: the register file, the call stack and the two timers.
pub struct Cpu {
    pub register: Register,
    pub stack: [u16; 16],
    pub delay_timer: u8,
    pub sound_timer: u8,
}

impl Cpu {
    /// Registers, stack and timers zeroed; the program counter at the start of
    /// the program.
    pub fn new() -> (r: Cpu)
        ensures
            forall|k: int| 0 <= k < 16 ==> #[trigger] r.register.v[k] == 0,
            forall|k: int| 0 <= k < 16 ==> #[trigger] r.stack[k] == 0,
            r.register.index == 0,
            r.register.pc == PROGRAM_START,
            r.register.sp == 0,
            r.delay_timer == 0,
            r.sound_timer == 0,
    {
        Cpu { register: Register::new(), stack: [0u16; 16], delay_timer: 0, sound_timer: 0 }
    }
}

} // verus!
