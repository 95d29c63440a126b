use vstd::prelude::*;
use crate::chip8::{next, op_nn, ticked, Machine, StepStatus};

verus! {

/// The instruction `6XNN`: set `Vx` to `nn`.
pub open spec fn set_immediate(x: u16, nn: u8) -> u16 {
    (0x6000u16 | (x << 8u16) | (nn as u16)) as u16
}

/// The instruction `7XNN`: add `nn` to `Vx`.
pub open spec fn add_immediate(x: u16, nn: u8) -> u16 {
    (0x7000u16 | (x << 8u16) | (nn as u16)) as u16
}

/// The instruction `8XY5`: `Vx = Vx - Vy`, `VF` the no-borrow flag.
pub open spec fn subtract(x: u16, y: u16) -> u16 {
    (0x8005u16 | (x << 8u16) | (y << 4u16)) as u16
}

/// The instruction `2NNN`: call the subroutine at `nnn`.
pub open spec fn call_op(nnn: u16) -> u16 {
    (0x2000u16 | nnn) as u16
}

/// The instruction `00EE`: return from a subroutine.
pub open spec fn return_op() -> u16 {
    0x00EEu16
}

/// Setting a register to `nn` and then adding `nn2` to it leaves
/// `(nn + nn2) mod 256` in it.
pub proof fn lemma_set_then_add(m: Machine, x: u16, nn: u8, nn2: u8, r1: u8, r2: u8)
    requires
        m.wf(),
        x < 16,
    ensures
        next(m, set_immediate(x, nn), r1) is Ok,
        next(next(m, set_immediate(x, nn), r1)->Ok_0.0, add_immediate(x, nn2), r2) is Ok,
        next(next(m, set_immediate(x, nn), r1)->Ok_0.0, add_immediate(x, nn2), r2)->Ok_0.0.v[x as int]
            == (nn + nn2) % 256,
{
    let o1 = set_immediate(x, nn);
    let o2 = add_immediate(x, nn2);
    assert(o1 >> 12u16 == 6 && (o1 >> 8u16) & 0xF == x && o1 & 0xFF == nn as u16) by (bit_vector)
        requires o1 == (0x6000u16 | (x << 8u16) | (nn as u16)) as u16, x < 16, nn < 256;
    assert(o2 >> 12u16 == 7 && (o2 >> 8u16) & 0xF == x && o2 & 0xFF == nn2 as u16) by (bit_vector)
        requires o2 == (0x7000u16 | (x << 8u16) | (nn2 as u16)) as u16, x < 16, nn2 < 256;
}

/// Subtracting `Vy = b` from `Vx = a` leaves `(a - b) mod 256` in `Vx`, and
/// sets `VF` to 1 exactly when `a >= b`. (`Vx` must not be `VF` itself, which
/// the flag overwrites.)
pub proof fn lemma_subtract(m: Machine, x: u16, y: u16, rnd: u8)
    requires
        m.wf(),
        x < 15,
        y < 16,
    ensures
        next(m, subtract(x, y), rnd) is Ok,
        next(m, subtract(x, y), rnd)->Ok_0.1 == StepStatus::Running,
        next(m, subtract(x, y), rnd)->Ok_0.0.v[x as int] == (m.v[x as int] + 256 - m.v[y as int])
            % 256,
        next(m, subtract(x, y), rnd)->Ok_0.0.v[15] == (if m.v[x as int] >= m.v[y as int] {
            1u8
        } else {
            0u8
        }),
{
    let o = subtract(x, y);
    assert(o >> 12u16 == 8 && (o >> 8u16) & 0xF == x && (o >> 4u16) & 0xF == y && o & 0xF == 5)
        by (bit_vector)
        requires o == (0x8005u16 | (x << 8u16) | (y << 4u16)) as u16, x < 16, y < 16;
}

/// A call followed by a return brings the program counter and the stack
/// pointer back to where they were after the call was fetched, wherever
/// the stack has room.
pub proof fn lemma_call_return(m: Machine, nnn: u16, r1: u8, r2: u8)
    requires
        m.wf(),
        m.sp < 16,
        nnn < 0x1000,
    ensures
        next(m, call_op(nnn), r1) is Ok,
        next(next(m, call_op(nnn), r1)->Ok_0.0, return_op(), r2) is Ok,
        next(next(m, call_op(nnn), r1)->Ok_0.0, return_op(), r2)->Ok_0.0.pc == m.pc,
        next(next(m, call_op(nnn), r1)->Ok_0.0, return_op(), r2)->Ok_0.0.sp == m.sp,
{
    let o = call_op(nnn);
    assert(o >> 12u16 == 2 && o & 0xFFF == nnn) by (bit_vector)
        requires o == (0x2000u16 | nnn) as u16, nnn < 0x1000;
    assert((0x00EEu16 >> 12u16) == 0) by (bit_vector);
}

/// The key instructions always leave the key latch empty, whether the key
/// matched or not.
pub proof fn lemma_key_consumed(m: Machine, op: u16, rnd: u8)
    requires
        m.wf(),
        op >> 12u16 == 0xE,
        op_nn(op) == 0x9E || op_nn(op) == 0xA1,
    ensures
        next(m, op, rnd) is Ok,
        next(m, op, rnd)->Ok_0.0.key is None,
{
    assert((op >> 8u16) & 0xF < 16) by (bit_vector);
}

/// What the host does to the machine, in order: a timer tick, or the
/// execution of an instruction with a random byte.
pub enum Event {
    Tick,
    Exec(u16, u8),
}

/// The instructions `FX15` and `FX18`, which set a timer.
pub open spec fn sets_timer(op: u16) -> bool {
    op >> 12u16 == 0xF && (op_nn(op) == 0x15 || op_nn(op) == 0x18)
}

/// The machine after `events`; an instruction that fails leaves it alone.
pub open spec fn run(m: Machine, events: Seq<Event>) -> Machine
    decreases events.len(),
{
    if events.len() == 0 {
        m
    } else {
        let m1 = run(m, events.drop_last());
        match events.last() {
            Event::Tick => ticked(m1),
            Event::Exec(op, rnd) => match next(m1, op, rnd) {
                Ok((m2, _)) => m2,
                Err(_) => m1,
            },
        }
    }
}

/// The number of ticks among `events`.
pub open spec fn ticks(events: Seq<Event>) -> nat
    decreases events.len(),
{
    if events.len() == 0 {
        0
    } else {
        ticks(events.drop_last()) + if events.last() is Tick {
            1nat
        } else {
            0nat
        }
    }
}

/// Every instruction but the two timer setters leaves both timers alone.
pub proof fn lemma_exec_keeps_timers(m: Machine, op: u16, rnd: u8)
    requires
        !sets_timer(op),
    ensures
        next(m, op, rnd) is Ok ==> next(m, op, rnd)->Ok_0.0.delay == m.delay
            && next(m, op, rnd)->Ok_0.0.sound == m.sound,
{
    assert(op >> 12u16 < 16) by (bit_vector);
}

/// Between timer-setting instructions, each timer counts down one per tick
/// and stops at zero, however many instructions run between the ticks.
pub proof fn lemma_timers_count_ticks(m: Machine, events: Seq<Event>)
    requires
        forall|k: int| 0 <= k < events.len() ==> !(#[trigger] events[k] is Exec && sets_timer(
            events[k]->Exec_0,
        )),
    ensures
        run(m, events).delay == (if m.delay >= ticks(events) { m.delay - ticks(events) } else { 0 }),
        run(m, events).sound == (if m.sound >= ticks(events) { m.sound - ticks(events) } else { 0 }),
    decreases events.len(),
{
    if events.len() > 0 {
        let rest = events.drop_last();
        assert forall|k: int| 0 <= k < rest.len() implies !(#[trigger] rest[k] is Exec && sets_timer(
            rest[k]->Exec_0,
        )) by {
            assert(rest[k] == events[k]);
        }
        lemma_timers_count_ticks(m, rest);
        let last = events.last();
        assert(events[events.len() - 1] == last);
        match last {
            Event::Tick => {},
            Event::Exec(op, rnd) => {
                lemma_exec_keeps_timers(run(m, rest), op, rnd);
            },
        }
    }
}

/// Sixty ticks, one second at 60 Hz, run both timers down to zero from any
/// value up to 60, whatever instructions other than the timer setters run in
/// between.
pub proof fn lemma_one_second_clears_timers(m: Machine, events: Seq<Event>)
    requires
        m.delay <= 60,
        m.sound <= 60,
        ticks(events) == 60,
        forall|k: int| 0 <= k < events.len() ==> !(#[trigger] events[k] is Exec && sets_timer(
            events[k]->Exec_0,
        )),
    ensures
        run(m, events).delay == 0,
        run(m, events).sound == 0,
{
    lemma_timers_count_ticks(m, events);
}

} // verus!
