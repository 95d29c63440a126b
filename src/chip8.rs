use vstd::prelude::*;
use crate::cpu::{Cpu, PROGRAM_START, STACK_DEPTH};
use crate::display::{blank, collides, drawn, Display, PIXELS};
use crate::error::Chip8Error;
use crate::memory::{first_out, overwrite, Memory, MEMORY_SIZE};

verus! {

/// What the machine does after an instruction.
#[derive(Debug, Clone, Copy, PartialEq, Eq, Structural)]
pub enum StepStatus {
    /// Ready to fetch the next instruction.
    Running,
    /// Suspended on a wait-for-key instruction with no key latched: the
    /// instruction is fetched again on the next step.
    AwaitingKey,
}

/// The whole machine state as mathematical values.
pub struct Machine {
    pub v: Seq<u8>,
    pub index: u16,
    pub pc: u16,
    pub sp: u16,
    pub stack: Seq<u16>,
    pub mem: Seq<u8>,
    pub gfx: Seq<u8>,
    pub delay: u8,
    pub sound: u8,
    pub key: Option<u8>,
}

impl Machine {
    /// Sizes of the register file, stack, memory and framebuffer, and a stack
    /// pointer within the stack.
    pub open spec fn wf(self) -> bool {
        &&& self.v.len() == 16
        &&& self.stack.len() == STACK_DEPTH
        &&& self.sp <= STACK_DEPTH
        &&& self.mem.len() == MEMORY_SIZE
        &&& self.gfx.len() == PIXELS
    }
}

/// The sixteen built-in glyphs `0`..`F`, five bytes each.
pub open spec fn font() -> Seq<u8> {
    seq![
        0xF0u8, 0x90, 0x90, 0x90, 0xF0, 0x20, 0x60, 0x20, 0x20, 0x70,
        0xF0, 0x10, 0xF0, 0x80, 0xF0, 0xF0, 0x10, 0xF0, 0x10, 0xF0,
        0x90, 0x90, 0xF0, 0x10, 0x10, 0xF0, 0x80, 0xF0, 0x10, 0xF0,
        0xF0, 0x80, 0xF0, 0x90, 0xF0, 0xF0, 0x10, 0x20, 0x40, 0x40,
        0xF0, 0x90, 0xF0, 0x90, 0xF0, 0xF0, 0x90, 0xF0, 0x10, 0xF0,
        0xF0, 0x90, 0xF0, 0x90, 0x90, 0xE0, 0x90, 0xE0, 0x90, 0xE0,
        0xF0, 0x80, 0x80, 0x80, 0xF0, 0xE0, 0x90, 0x90, 0x90, 0xE0,
        0xF0, 0x80, 0xF0, 0x80, 0xF0, 0xF0, 0x80, 0xF0, 0x80, 0x80,
    ]
}

/// The machine at power-on: registers, stack and timers zero, the font at
/// address 0, the rest of memory and the framebuffer clear, no key latched.
pub open spec fn initial() -> Machine {
    Machine {
        v: Seq::new(16, |k: int| 0u8),
        index: 0,
        pc: PROGRAM_START,
        sp: 0,
        stack: Seq::new(16, |k: int| 0u16),
        mem: overwrite(Seq::new(MEMORY_SIZE as nat, |a: int| 0u8), 0, font()),
        gfx: blank(),
        delay: 0,
        sound: 0,
        key: None,
    }
}

/// Register index in bits 8..12 of an instruction.
pub open spec fn op_x(op: u16) -> int {
    ((op >> 8u16) & 0xF) as int
}

/// Register index in bits 4..8 of an instruction.
pub open spec fn op_y(op: u16) -> int {
    ((op >> 4u16) & 0xF) as int
}

/// The low nibble of an instruction.
pub open spec fn op_n(op: u16) -> u16 {
    op & 0xF
}

/// The low byte of an instruction.
pub open spec fn op_nn(op: u16) -> u8 {
    (op & 0xFF) as u8
}

/// The low twelve bits of an instruction: an address.
pub open spec fn op_nnn(op: u16) -> u16 {
    op & 0xFFF
}

/// `a` reduced modulo 2^16.
pub open spec fn wrap16(a: int) -> u16 {
    (a % 0x10000) as u16
}

/// `m`, carrying on.
pub open spec fn running(m: Machine) -> Result<(Machine, StepStatus), Chip8Error> {
    Ok((m, StepStatus::Running))
}

/// `m` with `Vx` set to `b`.
pub open spec fn set_v(m: Machine, x: int, b: u8) -> Machine {
    Machine { v: m.v.update(x, b), ..m }
}

/// `m` with the next instruction skipped where `cond` holds.
pub open spec fn skip_if(m: Machine, cond: bool) -> Machine {
    if cond {
        Machine { pc: wrap16(m.pc + 2), ..m }
    } else {
        m
    }
}

/// A subroutine call to `target`: the return address is pushed.
pub open spec fn call(m: Machine, target: u16) -> Result<(Machine, StepStatus), Chip8Error> {
    if m.sp >= STACK_DEPTH {
        Err(Chip8Error::StackOverflow)
    } else {
        running(Machine { stack: m.stack.update(m.sp as int, m.pc), sp: (m.sp + 1) as u16, pc: target, ..m })
    }
}

/// A return from a subroutine: the return address is popped.
pub open spec fn ret(m: Machine) -> Result<(Machine, StepStatus), Chip8Error> {
    if m.sp == 0 {
        Err(Chip8Error::StackUnderflow)
    } else {
        running(Machine { sp: (m.sp - 1) as u16, pc: m.stack[m.sp - 1], ..m })
    }
}

/// The register operation `sel` on `vx` and `vy`: the new `Vx`, and the new
/// `VF` where the operation sets the flag. `None` for an unknown selector.
pub open spec fn alu(vx: u8, vy: u8, sel: u16) -> Option<(u8, Option<u8>)> {
    if sel == 0 {
        Some((vy, None))
    } else if sel == 1 {
        Some((vx | vy, None))
    } else if sel == 2 {
        Some((vx & vy, None))
    } else if sel == 3 {
        Some((vx ^ vy, None))
    } else if sel == 4 {
        Some((((vx + vy) % 256) as u8, Some(if vx + vy > 255 { 1u8 } else { 0u8 })))
    } else if sel == 5 {
        Some((((vx + 256 - vy) % 256) as u8, Some(if vx >= vy { 1u8 } else { 0u8 })))
    } else if sel == 6 {
        Some((vx >> 1u8, Some(vx & 1)))
    } else if sel == 7 {
        Some((((vy + 256 - vx) % 256) as u8, Some(if vy >= vx { 1u8 } else { 0u8 })))
    } else if sel == 0xE {
        Some((((vx * 2) % 256) as u8, Some(vx >> 7u8)))
    } else {
        None
    }
}

/// The error for an instruction word that names no operation; `m.pc` has
/// already moved past it.
pub open spec fn invalid(m: Machine, op: u16) -> Result<(Machine, StepStatus), Chip8Error> {
    Err(Chip8Error::InvalidOpcode { opcode: op, addr: wrap16(m.pc + 0xFFFE) })
}

/// The register family `8XYs`.
pub open spec fn next_alu(m: Machine, op: u16) -> Result<(Machine, StepStatus), Chip8Error> {
    let x = op_x(op);
    match alu(m.v[x], m.v[op_y(op)], op_n(op)) {
        None => invalid(m, op),
        Some((r, None)) => running(set_v(m, x, r)),
        Some((r, Some(f))) => running(set_v(set_v(m, x, r), 15, f)),
    }
}

/// The sprite instruction `DXYN`: `n` rows from memory at `I` drawn at
/// `(Vx, Vy)`, `VF` set to whether a pixel was turned off.
pub open spec fn next_draw(m: Machine, op: u16) -> Result<(Machine, StepStatus), Chip8Error> {
    let n = op_n(op) as int;
    if n > 0 && m.index + n > MEMORY_SIZE {
        Err(Chip8Error::OutOfBounds(first_out(m.index as int) as usize))
    } else {
        let sprite = m.mem.subrange(m.index as int, m.index + n);
        let vx = m.v[op_x(op)];
        let vy = m.v[op_y(op)];
        let hit = collides(m.gfx, vx, vy, sprite, n);
        running(
            Machine {
                gfx: drawn(m.gfx, vx, vy, sprite, n),
                v: m.v.update(15, if hit { 1u8 } else { 0u8 }),
                ..m
            },
        )
    }
}

/// The key instructions `EX9E` and `EXA1`: skip where the latched key is
/// `Vx`, respectively is not (an empty latch included). Either consumes the
/// latched key.
pub open spec fn next_key(m: Machine, op: u16) -> Result<(Machine, StepStatus), Chip8Error> {
    let vx = m.v[op_x(op)];
    if op_nn(op) == 0x9E {
        running(Machine { key: None, ..skip_if(m, m.key == Some(vx)) })
    } else if op_nn(op) == 0xA1 {
        running(Machine { key: None, ..skip_if(m, m.key != Some(vx)) })
    } else {
        invalid(m, op)
    }
}

/// The family `FXss`: timers, key wait, index arithmetic and register
/// transfers to and from memory. `FX0A` moves the latched key into `Vx` and
/// consumes it; with the latch empty it suspends, the program counter back on
/// the instruction. `FX1E` sets `VF` to whether the new index lies past
/// `0xFFF`.
pub open spec fn next_misc(m: Machine, op: u16) -> Result<(Machine, StepStatus), Chip8Error> {
    let x = op_x(op);
    let vx = m.v[x];
    let sel = op_nn(op);
    if sel == 0x07 {
        running(set_v(m, x, m.delay))
    } else if sel == 0x0A {
        match m.key {
            None => Ok((Machine { pc: wrap16(m.pc + 0xFFFE), ..m }, StepStatus::AwaitingKey)),
            Some(k) => running(Machine { key: None, ..set_v(m, x, k) }),
        }
    } else if sel == 0x15 {
        running(Machine { delay: vx, ..m })
    } else if sel == 0x18 {
        running(Machine { sound: vx, ..m })
    } else if sel == 0x1E {
        let i2 = wrap16(m.index + vx);
        running(Machine { index: i2, ..set_v(m, 15, if i2 > 0xFFF { 1u8 } else { 0u8 }) })
    } else if sel == 0x29 {
        running(Machine { index: (vx * 5) as u16, ..m })
    } else if sel == 0x33 {
        if m.index + 3 > MEMORY_SIZE {
            Err(Chip8Error::OutOfBounds(first_out(m.index as int) as usize))
        } else {
            let digits = seq![vx / 100, (vx / 10) % 10, vx % 10];
            running(Machine { mem: overwrite(m.mem, m.index as int, digits), ..m })
        }
    } else if sel == 0x55 {
        if m.index + x + 1 > MEMORY_SIZE {
            Err(Chip8Error::OutOfBounds(first_out(m.index as int) as usize))
        } else {
            running(Machine { mem: overwrite(m.mem, m.index as int, m.v.subrange(0, x + 1)), ..m })
        }
    } else if sel == 0x65 {
        if m.index + x + 1 > MEMORY_SIZE {
            Err(Chip8Error::OutOfBounds(first_out(m.index as int) as usize))
        } else {
            running(
                Machine { v: overwrite(m.v, 0, m.mem.subrange(m.index as int, m.index + x + 1)), ..m },
            )
        }
    } else {
        invalid(m, op)
    }
}

/// The effect of executing instruction `op` on `m`, whose program counter has
/// already moved past it. `rnd` is the random byte that `CXNN` masks.
pub open spec fn next(m: Machine, op: u16, rnd: u8) -> Result<(Machine, StepStatus), Chip8Error> {
    let x = op_x(op);
    let vx = m.v[x];
    let vy = m.v[op_y(op)];
    let nn = op_nn(op);
    let nnn = op_nnn(op);
    let family = op >> 12u16;
    if family == 0 {
        if op == 0x00E0 {
            running(Machine { gfx: blank(), ..m })
        } else if op == 0x00EE {
            ret(m)
        } else {
            call(m, nnn)
        }
    } else if family == 1 {
        running(Machine { pc: nnn, ..m })
    } else if family == 2 {
        call(m, nnn)
    } else if family == 3 {
        running(skip_if(m, vx == nn))
    } else if family == 4 {
        running(skip_if(m, vx != nn))
    } else if family == 5 {
        if op_n(op) != 0 { invalid(m, op) } else { running(skip_if(m, vx == vy)) }
    } else if family == 6 {
        running(set_v(m, x, nn))
    } else if family == 7 {
        running(set_v(m, x, ((vx + nn) % 256) as u8))
    } else if family == 8 {
        next_alu(m, op)
    } else if family == 9 {
        if op_n(op) != 0 { invalid(m, op) } else { running(skip_if(m, vx != vy)) }
    } else if family == 0xA {
        running(Machine { index: nnn, ..m })
    } else if family == 0xB {
        running(Machine { pc: wrap16(m.pc + m.v[0] + nnn), ..m })
    } else if family == 0xC {
        running(set_v(m, x, rnd & nn))
    } else if family == 0xD {
        next_draw(m, op)
    } else if family == 0xE {
        next_key(m, op)
    } else {
        next_misc(m, op)
    }
}

/// The instruction word at the program counter, big-endian.
pub open spec fn fetch(m: Machine) -> Result<u16, Chip8Error> {
    if m.pc + 2 > MEMORY_SIZE {
        Err(Chip8Error::OutOfBounds(first_out(m.pc as int) as usize))
    } else {
        Ok((m.mem[m.pc as int] * 256 + m.mem[m.pc + 1]) as u16)
    }
}

/// One fetch-decode-execute cycle on `m`.
pub open spec fn step_spec(m: Machine, rnd: u8) -> Result<(Machine, StepStatus), Chip8Error> {
    match fetch(m) {
        Err(e) => Err(e),
        Ok(op) => next(Machine { pc: wrap16(m.pc + 2), ..m }, op, rnd),
    }
}

/// One timer tick: each counter one lower, stopping at zero.
pub open spec fn ticked(m: Machine) -> Machine {
    Machine {
        delay: if m.delay > 0 { (m.delay - 1) as u8 } else { 0 },
        sound: if m.sound > 0 { (m.sound - 1) as u8 } else { 0 },
        ..m
    }
}

/// Whether `r` is the outcome `want`, for the machine `after`; on an error
/// the machine is left as `before`.
pub open spec fn outcome(
    want: Result<(Machine, StepStatus), Chip8Error>,
    r: Result<StepStatus, Chip8Error>,
    before: Machine,
    after: Machine,
) -> bool {
    match want {
        Ok((m2, s)) => r == Ok::<StepStatus, Chip8Error>(s) && after == m2,
        Err(e) => r == Err::<StepStatus, Chip8Error>(e) && after == before,
    }
}

/// Relies on rand::random: a byte drawn from the thread-local generator.
/// Nothing is promised of its value.
#[verifier::external_body]
fn random_byte() -> (r: u8) {
    rand::random::<u8>()
}

proof fn lemma_fields(op: u16)
    ensures
        op_x(op) < 16,
        op_y(op) < 16,
        op_n(op) < 16,
        op_nnn(op) < 4096,
        op >> 12u16 < 16,
        op_nn(op) as u16 == op & 0xFF,
{
    assert((op >> 8u16) & 0xF < 16) by (bit_vector);
    assert((op >> 4u16) & 0xF < 16) by (bit_vector);
    assert(op & 0xF < 16) by (bit_vector);
    assert(op & 0xFFF < 4096) by (bit_vector);
    assert(op >> 12u16 < 16) by (bit_vector);
    assert(op & 0xFF < 256) by (bit_vector);
}

/// The interpreter: processor, memory, framebuffer and key latch, owned by a
/// single stepping authority.
///
/// The key latch holds only the most recently pressed key. Chords and key
/// releases are not tracked; the key instructions consume the latched key.
pub struct Chip8 {
    cpu: Cpu,
    memory: Memory,
    display: Display,
    key_pressed: Option<u8>,
}

impl View for Chip8 {
    type V = Machine;

    closed spec fn view(&self) -> Machine {
        Machine {
            v: self.cpu.register.v@,
            index: self.cpu.register.index,
            pc: self.cpu.register.pc,
            sp: self.cpu.register.sp,
            stack: self.cpu.stack@,
            mem: self.memory@,
            gfx: self.display@,
            delay: self.cpu.delay_timer,
            sound: self.cpu.sound_timer,
            key: self.key_pressed,
        }
    }
}

impl Chip8 {
    /// Whether the state is well formed.
    pub closed spec fn wf(&self) -> bool {
        self@.wf()
    }

    /// A machine at power-on, with the built-in font at address 0.
    pub fn new() -> (r: Chip8)
        ensures
            r.wf(),
            r@ == initial(),
    {
        let glyphs: Vec<u8> = vec![
            0xF0u8, 0x90, 0x90, 0x90, 0xF0, 0x20, 0x60, 0x20, 0x20, 0x70,
            0xF0, 0x10, 0xF0, 0x80, 0xF0, 0xF0, 0x10, 0xF0, 0x10, 0xF0,
            0x90, 0x90, 0xF0, 0x10, 0x10, 0xF0, 0x80, 0xF0, 0x10, 0xF0,
            0xF0, 0x80, 0xF0, 0x90, 0xF0, 0xF0, 0x10, 0x20, 0x40, 0x40,
            0xF0, 0x90, 0xF0, 0x90, 0xF0, 0xF0, 0x90, 0xF0, 0x10, 0xF0,
            0xF0, 0x90, 0xF0, 0x90, 0x90, 0xE0, 0x90, 0xE0, 0x90, 0xE0,
            0xF0, 0x80, 0x80, 0x80, 0xF0, 0xE0, 0x90, 0x90, 0x90, 0xE0,
            0xF0, 0x80, 0xF0, 0x80, 0xF0, 0xF0, 0x80, 0xF0, 0x80, 0x80,
        ];
        assert(glyphs@ =~= font());
        let mut memory = Memory::new();
        let loaded = memory.load(0, glyphs.as_slice());
        assert(loaded is Ok);
        let r = Chip8 { cpu: Cpu::new(), memory, display: Display::new(), key_pressed: None };
        proof {
            r.display.lemma_size();
            r.memory.lemma_size();
        }
        assert(r@.v =~= initial().v);
        assert(r@.stack =~= initial().stack);
        r
    }

    /// Loads a program at address `0x200`. Fails with `ProgramTooLarge`,
    /// leaving the machine alone, where it does not fit below `0x1000`.
    pub fn load_prog(&mut self, data: &[u8]) -> (r: Result<(), Chip8Error>)
        requires
            old(self).wf(),
        ensures
            final(self).wf(),
            data@.len() <= MEMORY_SIZE - PROGRAM_START ==> r is Ok && final(self)@ == (Machine {
                mem: overwrite(old(self)@.mem, PROGRAM_START as int, data@),
                ..old(self)@
            }),
            data@.len() > MEMORY_SIZE - PROGRAM_START ==> r == Err::<(), Chip8Error>(
                Chip8Error::ProgramTooLarge,
            ) && final(self)@ == old(self)@,
    {
        let r = self.memory.load(PROGRAM_START as usize, data);
        proof {
            self.memory.lemma_size();
        }
        r
    }

    /// Records a key press: the latch holds `key` until a key instruction
    /// consumes it or the next press overwrites it.
    pub fn set_key_pressed(&mut self, key: Option<u8>)
        requires
            old(self).wf(),
            key is Some ==> key->0 < 16,
        ensures
            final(self).wf(),
            final(self)@ == (Machine { key, ..old(self)@ }),
    {
        self.key_pressed = key;
    }

    /// One timer tick, at 60 Hz whatever the instruction rate: each timer one
    /// lower, stopping at zero. Returns whether the sound timer was running,
    /// that is whether a tone sounds for this tick.
    pub fn tick(&mut self) -> (tone: bool)
        requires
            old(self).wf(),
        ensures
            final(self).wf(),
            final(self)@ == ticked(old(self)@),
            tone == (old(self)@.sound > 0),
    {
        if self.cpu.delay_timer > 0 {
            self.cpu.delay_timer = self.cpu.delay_timer - 1;
        }
        let tone = self.cpu.sound_timer > 0;
        if tone {
            self.cpu.sound_timer = self.cpu.sound_timer - 1;
        }
        tone
    }

    /// The address of the instruction being executed: two below the program
    /// counter, wrapping.
    fn fault_addr(&self) -> (r: u16)
        ensures
            r == wrap16(self@.pc + 0xFFFE),
    {
        ((self.cpu.register.pc as u32 + 0xFFFE) % 0x10000) as u16
    }

    /// Moves the program counter past the next instruction.
    fn skip(&mut self)
        requires
            old(self).wf(),
        ensures
            final(self).wf(),
            final(self)@ == skip_if(old(self)@, true),
    {
        self.cpu.register.pc = ((self.cpu.register.pc as u32 + 2) % 0x10000) as u16;
    }

    fn exec_call(&mut self, target: u16) -> (r: Result<StepStatus, Chip8Error>)
        requires
            old(self).wf(),
        ensures
            final(self).wf(),
            outcome(call(old(self)@, target), r, old(self)@, final(self)@),
    {
        let sp = self.cpu.register.sp;
        if sp >= STACK_DEPTH {
            return Err(Chip8Error::StackOverflow);
        }
        self.cpu.stack[sp as usize] = self.cpu.register.pc;
        self.cpu.register.sp = sp + 1;
        self.cpu.register.pc = target;
        Ok(StepStatus::Running)
    }

    fn exec_ret(&mut self) -> (r: Result<StepStatus, Chip8Error>)
        requires
            old(self).wf(),
        ensures
            final(self).wf(),
            outcome(ret(old(self)@), r, old(self)@, final(self)@),
    {
        let sp = self.cpu.register.sp;
        if sp == 0 {
            return Err(Chip8Error::StackUnderflow);
        }
        self.cpu.register.sp = sp - 1;
        self.cpu.register.pc = self.cpu.stack[(sp - 1) as usize];
        Ok(StepStatus::Running)
    }

    fn exec_alu(&mut self, op: u16) -> (r: Result<StepStatus, Chip8Error>)
        requires
            old(self).wf(),
        ensures
            final(self).wf(),
            outcome(next_alu(old(self)@, op), r, old(self)@, final(self)@),
    {
        proof {
            lemma_fields(op);
        }
        let x: usize = ((op >> 8u16) & 0xF) as usize;
        let y: usize = ((op >> 4u16) & 0xF) as usize;
        let vx = self.cpu.register.v[x];
        let vy = self.cpu.register.v[y];
        let sel = op & 0xF;
        let res: u8;
        let flag: Option<u8>;
        if sel == 0 {
            res = vy;
            flag = None;
        } else if sel == 1 {
            res = vx | vy;
            flag = None;
        } else if sel == 2 {
            res = vx & vy;
            flag = None;
        } else if sel == 3 {
            res = vx ^ vy;
            flag = None;
        } else if sel == 4 {
            let sum: u16 = vx as u16 + vy as u16;
            res = (sum % 256) as u8;
            flag = Some(if sum > 255 { 1u8 } else { 0u8 });
        } else if sel == 5 {
            res = ((vx as u16 + 256 - vy as u16) % 256) as u8;
            flag = Some(if vx >= vy { 1u8 } else { 0u8 });
        } else if sel == 6 {
            res = vx >> 1u8;
            flag = Some(vx & 1);
        } else if sel == 7 {
            res = ((vy as u16 + 256 - vx as u16) % 256) as u8;
            flag = Some(if vy >= vx { 1u8 } else { 0u8 });
        } else if sel == 0xE {
            res = ((vx as u16 * 2) % 256) as u8;
            flag = Some(vx >> 7u8);
        } else {
            return Err(Chip8Error::InvalidOpcode { opcode: op, addr: self.fault_addr() });
        }
        assert(alu(vx, vy, sel) == Some((res, flag)));
        self.cpu.register.v[x] = res;
        match flag {
            Some(f) => {
                self.cpu.register.v[15] = f;
            },
            None => {},
        }
        Ok(StepStatus::Running)
    }

    fn exec_draw(&mut self, op: u16) -> (r: Result<StepStatus, Chip8Error>)
        requires
            old(self).wf(),
        ensures
            final(self).wf(),
            outcome(next_draw(old(self)@, op), r, old(self)@, final(self)@),
    {
        proof {
            lemma_fields(op);
            self.memory.lemma_size();
        }
        let n = (op & 0xF) as usize;
        let sprite = match self.memory.read_range(self.cpu.register.index as usize, n) {
            Ok(bytes) => bytes,
            Err(e) => {
                return Err(e);
            },
        };
        let x: usize = ((op >> 8u16) & 0xF) as usize;
        let y: usize = ((op >> 4u16) & 0xF) as usize;
        let vx = self.cpu.register.v[x];
        let vy = self.cpu.register.v[y];
        let hit = self.display.draw_sprite(vx, vy, sprite.as_slice());
        proof {
            self.display.lemma_size();
        }
        self.cpu.register.v[15] = if hit { 1u8 } else { 0u8 };
        Ok(StepStatus::Running)
    }

    fn exec_key(&mut self, op: u16) -> (r: Result<StepStatus, Chip8Error>)
        requires
            old(self).wf(),
        ensures
            final(self).wf(),
            outcome(next_key(old(self)@, op), r, old(self)@, final(self)@),
    {
        proof {
            lemma_fields(op);
        }
        let x: usize = ((op >> 8u16) & 0xF) as usize;
        let vx = self.cpu.register.v[x];
        let sel = op & 0xFF;
        let hit: bool;
        if sel == 0x9E {
            hit = match self.key_pressed {
                Some(k) => k == vx,
                None => false,
            };
        } else if sel == 0xA1 {
            hit = match self.key_pressed {
                Some(k) => k != vx,
                None => true,
            };
        } else {
            return Err(Chip8Error::InvalidOpcode { opcode: op, addr: self.fault_addr() });
        }
        if hit {
            self.skip();
        }
        self.key_pressed = None;
        Ok(StepStatus::Running)
    }

    fn exec_transfer(&mut self, op: u16) -> (r: Result<StepStatus, Chip8Error>)
        requires
            old(self).wf(),
            op_nn(op) == 0x33 || op_nn(op) == 0x55 || op_nn(op) == 0x65,
        ensures
            final(self).wf(),
            outcome(next_misc(old(self)@, op), r, old(self)@, final(self)@),
    {
        proof {
            lemma_fields(op);
            self.memory.lemma_size();
        }
        let x: usize = ((op >> 8u16) & 0xF) as usize;
        let vx = self.cpu.register.v[x];
        let index = self.cpu.register.index as usize;
        let sel = op & 0xFF;
        if sel == 0x33 {
            let digits: Vec<u8> = vec![vx / 100, (vx / 10) % 10, vx % 10];
            assert(digits@ =~= seq![vx / 100, (vx / 10) % 10, vx % 10]);
            let w = self.memory.write_range(index, digits.as_slice());
            proof {
                self.memory.lemma_size();
            }
            match w {
                Ok(()) => Ok(StepStatus::Running),
                Err(e) => Err(e),
            }
        } else if sel == 0x55 {
            let mut regs: Vec<u8> = Vec::new();
            let mut k: usize = 0;
            while k <= x
                invariant
                    x < 16,
                    k <= x + 1,
                    self.wf(),
                    self@ == old(self)@,
                    regs@ == self@.v.subrange(0, k as int),
                decreases x + 1 - k,
            {
                regs.push(self.cpu.register.v[k]);
                k = k + 1;
                assert(regs@ =~= self@.v.subrange(0, k as int));
            }
            let w = self.memory.write_range(index, regs.as_slice());
            proof {
                self.memory.lemma_size();
            }
            match w {
                Ok(()) => Ok(StepStatus::Running),
                Err(e) => Err(e),
            }
        } else {
            let bytes = match self.memory.read_range(index, x + 1) {
                Ok(b) => b,
                Err(e) => {
                    return Err(e);
                },
            };
            let ghost want = overwrite(old(self)@.v, 0, bytes@);
            let mut k: usize = 0;
            while k <= x
                invariant
                    x < 16,
                    k <= x + 1,
                    bytes@.len() == x + 1,
                    self.wf(),
                    self@ == (Machine { v: self@.v, ..old(self)@ }),
                    self@.v == overwrite(old(self)@.v, 0, bytes@.subrange(0, k as int)),
                decreases x + 1 - k,
            {
                self.cpu.register.v[k] = bytes[k];
                k = k + 1;
                assert(self@.v =~= overwrite(old(self)@.v, 0, bytes@.subrange(0, k as int)));
            }
            assert(bytes@.subrange(0, k as int) =~= bytes@);
            Ok(StepStatus::Running)
        }
    }

    fn exec_misc(&mut self, op: u16) -> (r: Result<StepStatus, Chip8Error>)
        requires
            old(self).wf(),
        ensures
            final(self).wf(),
            outcome(next_misc(old(self)@, op), r, old(self)@, final(self)@),
    {
        proof {
            lemma_fields(op);
        }
        let x: usize = ((op >> 8u16) & 0xF) as usize;
        let vx = self.cpu.register.v[x];
        let sel = op & 0xFF;
        if sel == 0x07 {
            self.cpu.register.v[x] = self.cpu.delay_timer;
        } else if sel == 0x0A {
            match self.key_pressed {
                Some(k) => {
                    self.cpu.register.v[x] = k;
                    self.key_pressed = None;
                },
                None => {
                    self.cpu.register.pc = self.fault_addr();
                    return Ok(StepStatus::AwaitingKey);
                },
            }
        } else if sel == 0x15 {
            self.cpu.delay_timer = vx;
        } else if sel == 0x18 {
            self.cpu.sound_timer = vx;
        } else if sel == 0x1E {
            let i2 = ((self.cpu.register.index as u32 + vx as u32) % 0x10000) as u16;
            self.cpu.register.v[15] = if i2 > 0xFFF { 1u8 } else { 0u8 };
            self.cpu.register.index = i2;
        } else if sel == 0x29 {
            self.cpu.register.index = vx as u16 * 5;
        } else if sel == 0x33 || sel == 0x55 || sel == 0x65 {
            return self.exec_transfer(op);
        } else {
            return Err(Chip8Error::InvalidOpcode { opcode: op, addr: self.fault_addr() });
        }
        Ok(StepStatus::Running)
    }

    /// Executes the instruction word `opcode`, the program counter having
    /// already moved past it. `random` is the byte that `CXNN` masks with `NN`.
    /// On a fatal condition the machine is left as it was.
    pub fn execute(&mut self, opcode: u16, random: u8) -> (r: Result<StepStatus, Chip8Error>)
        requires
            old(self).wf(),
        ensures
            final(self).wf(),
            outcome(next(old(self)@, opcode, random), r, old(self)@, final(self)@),
    {
        proof {
            lemma_fields(opcode);
        }
        let family = opcode >> 12u16;
        let nnn = opcode & 0xFFF;
        let nn = (opcode & 0xFF) as u8;
        let x: usize = ((opcode >> 8u16) & 0xF) as usize;
        let y: usize = ((opcode >> 4u16) & 0xF) as usize;
        let vx = self.cpu.register.v[x];
        let vy = self.cpu.register.v[y];
        if family == 0 {
            if opcode == 0x00E0 {
                self.display.clear_window();
            } else if opcode == 0x00EE {
                return self.exec_ret();
            } else {
                return self.exec_call(nnn);
            }
        } else if family == 1 {
            self.cpu.register.pc = nnn;
        } else if family == 2 {
            return self.exec_call(nnn);
        } else if family == 3 {
            if vx == nn {
                self.skip();
            }
        } else if family == 4 {
            if vx != nn {
                self.skip();
            }
        } else if family == 5 || family == 9 {
            if opcode & 0xF != 0 {
                return Err(Chip8Error::InvalidOpcode { opcode, addr: self.fault_addr() });
            }
            if (family == 5) == (vx == vy) {
                self.skip();
            }
        } else if family == 6 {
            self.cpu.register.v[x] = nn;
        } else if family == 7 {
            self.cpu.register.v[x] = ((vx as u16 + nn as u16) % 256) as u8;
        } else if family == 8 {
            return self.exec_alu(opcode);
        } else if family == 0xA {
            self.cpu.register.index = nnn;
        } else if family == 0xB {
            let v0 = self.cpu.register.v[0];
            self.cpu.register.pc = ((self.cpu.register.pc as u32 + v0 as u32 + nnn as u32)
                % 0x10000) as u16;
        } else if family == 0xC {
            self.cpu.register.v[x] = random & nn;
        } else if family == 0xD {
            return self.exec_draw(opcode);
        } else if family == 0xE {
            return self.exec_key(opcode);
        } else {
            return self.exec_misc(opcode);
        }
        Ok(StepStatus::Running)
    }

    /// The instruction word at the program counter, which then moves past it.
    fn fetch_opcode(&mut self) -> (r: Result<u16, Chip8Error>)
        requires
            old(self).wf(),
        ensures
            final(self).wf(),
            r == fetch(old(self)@),
            r is Ok ==> final(self)@ == (Machine { pc: wrap16(old(self)@.pc + 2), ..old(self)@ }),
            r is Err ==> final(self)@ == old(self)@,
    {
        proof {
            self.memory.lemma_size();
        }
        let pc = self.cpu.register.pc as usize;
        let upper = match self.memory.read(pc) {
            Ok(b) => b,
            Err(e) => {
                return Err(e);
            },
        };
        let lower = match self.memory.read(pc + 1) {
            Ok(b) => b,
            Err(e) => {
                return Err(e);
            },
        };
        self.cpu.register.pc = ((pc + 2) % 0x10000) as u16;
        Ok((upper as u16) * 256 + lower as u16)
    }

    /// One fetch-decode-execute cycle, with `random` as the byte that `CXNN`
    /// masks.
    pub fn step_with(&mut self, random: u8) -> (r: Result<StepStatus, Chip8Error>)
        requires
            old(self).wf(),
        ensures
            final(self).wf(),
            match step_spec(old(self)@, random) {
                Ok((m2, s)) => r == Ok::<StepStatus, Chip8Error>(s) && final(self)@ == m2,
                Err(e) => r == Err::<StepStatus, Chip8Error>(e),
            },
    {
        let opcode = match self.fetch_opcode() {
            Ok(op) => op,
            Err(e) => {
                return Err(e);
            },
        };
        self.execute(opcode, random)
    }

    /// One fetch-decode-execute cycle, drawing a fresh random byte for
    /// `CXNN`. The outcome is that of `step_with` for some byte.
    pub fn step(&mut self) -> (r: Result<StepStatus, Chip8Error>)
        requires
            old(self).wf(),
        ensures
            final(self).wf(),
            exists|b: u8|
                match #[trigger] step_spec(old(self)@, b) {
                    Ok((m2, s)) => r == Ok::<StepStatus, Chip8Error>(s) && final(self)@ == m2,
                    Err(e) => r == Err::<StepStatus, Chip8Error>(e),
                },
    {
        let b = random_byte();
        let r = self.step_with(b);
        assert(match step_spec(old(self)@, b) {
            Ok((m2, s)) => r == Ok::<StepStatus, Chip8Error>(s) && self@ == m2,
            Err(e) => r == Err::<StepStatus, Chip8Error>(e),
        });
        r
    }

    /// Register `Vx`.
    pub fn v(&self, x: usize) -> (r: u8)
        requires
            self.wf(),
            x < 16,
        ensures
            r == self@.v[x as int],
    {
        self.cpu.register.v[x]
    }

    /// The index register.
    pub fn index(&self) -> (r: u16)
        ensures
            r == self@.index,
    {
        self.cpu.register.index
    }

    /// The program counter.
    pub fn pc(&self) -> (r: u16)
        ensures
            r == self@.pc,
    {
        self.cpu.register.pc
    }

    /// The number of return addresses on the call stack.
    pub fn sp(&self) -> (r: u16)
        ensures
            r == self@.sp,
    {
        self.cpu.register.sp
    }

    /// The delay timer.
    pub fn delay_timer(&self) -> (r: u8)
        ensures
            r == self@.delay,
    {
        self.cpu.delay_timer
    }

    /// The sound timer; a tone sounds while it is above zero.
    pub fn sound_timer(&self) -> (r: u8)
        ensures
            r == self@.sound,
    {
        self.cpu.sound_timer
    }

    /// The latched key, if any.
    pub fn key_pressed(&self) -> (r: Option<u8>)
        ensures
            r == self@.key,
    {
        self.key_pressed
    }

    /// The byte at `addr`, or `OutOfBounds` beyond the last address.
    pub fn read_memory(&self, addr: usize) -> (r: Result<u8, Chip8Error>)
        requires
            self.wf(),
        ensures
            addr < MEMORY_SIZE ==> r == Ok::<u8, Chip8Error>(self@.mem[addr as int]),
            addr >= MEMORY_SIZE ==> r == Err::<u8, Chip8Error>(Chip8Error::OutOfBounds(addr)),
    {
        self.memory.read(addr)
    }

    /// The framebuffer, for the renderer to read.
    pub fn display(&self) -> (r: &Display)
        ensures
            r@ == self@.gfx,
    {
        &self.display
    }
}

} // verus!
