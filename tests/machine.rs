use chip8::chip8::{Chip8, StepStatus};
use chip8::cpu::{Cpu, Register};
use chip8::display::Display;
use chip8::error::Chip8Error;
use chip8::keypad::keyboard_match;

fn run(m: &mut Chip8, ops: &[u16]) {
    for &op in ops {
        assert_eq!(m.execute(op, 0), Ok(StepStatus::Running));
    }
}

#[test]
fn register_and_cpu_start_zeroed() {
    let r = Register::new();
    assert_eq!(r.v, [0u8; 16]);
    assert_eq!((r.index, r.pc, r.sp), (0, 0x200, 0));
    let c = Cpu::new();
    assert_eq!(c.stack, [0u16; 16]);
    assert_eq!((c.delay_timer, c.sound_timer, c.register.pc), (0, 0, 0x200));
}

#[test]
fn new_machine_has_font_and_program_counter() {
    let m = Chip8::new();
    assert_eq!(m.pc(), 0x200);
    assert_eq!(m.sp(), 0);
    assert_eq!(m.read_memory(0), Ok(0xF0));
    assert_eq!(m.read_memory(5), Ok(0x20));
    assert_eq!(m.read_memory(79), Ok(0x80));
    assert_eq!(m.read_memory(80), Ok(0));
    assert_eq!(m.read_memory(4096), Err(Chip8Error::OutOfBounds(4096)));
    assert_eq!(m.key_pressed(), None);
}

#[test]
fn set_then_add_immediate_wraps() {
    let mut m = Chip8::new();
    run(&mut m, &[0x6A10, 0x7AF5]);
    assert_eq!(m.v(0xA), 0x05);
    run(&mut m, &[0x6B20, 0x7B22]);
    assert_eq!(m.v(0xB), 0x42);
}

#[test]
fn subtract_sets_no_borrow_flag() {
    let mut m = Chip8::new();
    run(&mut m, &[0x600A, 0x6103, 0x8015]);
    assert_eq!((m.v(0), m.v(0xF)), (7, 1));
    run(&mut m, &[0x6003, 0x610A, 0x8015]);
    assert_eq!((m.v(0), m.v(0xF)), (249, 0));
    run(&mut m, &[0x6009, 0x6109, 0x8015]);
    assert_eq!((m.v(0), m.v(0xF)), (0, 1));
}

#[test]
fn alu_family() {
    let mut m = Chip8::new();
    run(&mut m, &[0x60FF, 0x6101, 0x8014]);
    assert_eq!((m.v(0), m.v(0xF)), (0, 1));
    run(&mut m, &[0x6010, 0x6120, 0x8014]);
    assert_eq!((m.v(0), m.v(0xF)), (0x30, 0));
    run(&mut m, &[0x60F0, 0x610F, 0x8011]);
    assert_eq!(m.v(0), 0xFF);
    run(&mut m, &[0x60F0, 0x613C, 0x8012]);
    assert_eq!(m.v(0), 0x30);
    run(&mut m, &[0x60F0, 0x613C, 0x8013]);
    assert_eq!(m.v(0), 0xCC);
    run(&mut m, &[0x6005, 0x8016]);
    assert_eq!((m.v(0), m.v(0xF)), (2, 1));
    run(&mut m, &[0x6003, 0x610A, 0x8017]);
    assert_eq!((m.v(0), m.v(0xF)), (7, 1));
    run(&mut m, &[0x600A, 0x6103, 0x8017]);
    assert_eq!((m.v(0), m.v(0xF)), (249, 0));
    run(&mut m, &[0x6081, 0x801E]);
    assert_eq!((m.v(0), m.v(0xF)), (0x02, 1));
    run(&mut m, &[0x6042, 0x8010]);
    assert_eq!(m.v(0), m.v(1));
}

#[test]
fn draw_twice_collides_and_clears() {
    let mut d = Display::new();
    assert!(!d.draw_sprite(5, 7, &[0xF0, 0x90, 0xF0]));
    assert_eq!(d.pixel(5, 7), 1);
    assert_eq!(d.pixel(6, 8), 0);
    assert!(d.draw_sprite(5, 7, &[0xF0, 0x90, 0xF0]));
    for y in 0..32 {
        for x in 0..64 {
            assert_eq!(d.pixel(x, y), 0);
        }
    }
}

#[test]
fn draw_wraps_columns() {
    let mut d = Display::new();
    assert!(!d.draw_sprite(60, 0, &[0xFF]));
    for x in 0..64 {
        let lit = x >= 60 || x < 4;
        assert_eq!(d.pixel(x, 0), if lit { 1 } else { 0 });
    }
    for y in 1..32 {
        for x in 0..64 {
            assert_eq!(d.pixel(x, y), 0);
        }
    }
}

#[test]
fn draw_wraps_rows() {
    let mut d = Display::new();
    assert!(!d.draw_sprite(0, 31, &[0x80, 0x80]));
    assert_eq!(d.pixel(0, 31), 1);
    assert_eq!(d.pixel(0, 0), 1);
    d.clear_window();
    assert_eq!(d.pixel(0, 31), 0);
    assert_eq!(d.pixel(0, 0), 0);
}

#[test]
fn draw_instruction_reads_font_and_sets_flag() {
    let mut m = Chip8::new();
    run(&mut m, &[0x6000, 0xF029, 0x6102, 0x6203, 0xD125]);
    assert_eq!(m.index(), 0);
    assert_eq!(m.v(0xF), 0);
    assert_eq!(m.display().pixel(2, 3), 1);
    assert_eq!(m.display().pixel(3, 4), 0);
    run(&mut m, &[0xD125]);
    assert_eq!(m.v(0xF), 1);
    assert_eq!(m.display().pixel(2, 3), 0);
    run(&mut m, &[0xD125, 0x00E0]);
    assert_eq!(m.display().pixel(2, 3), 0);
}

#[test]
fn call_then_return_restores_pc() {
    let mut m = Chip8::new();
    assert_eq!(m.load_prog(&[0x23, 0x00]), Ok(()));
    assert_eq!(m.step_with(0), Ok(StepStatus::Running));
    assert_eq!((m.pc(), m.sp()), (0x300, 1));
    run(&mut m, &[0x00EE]);
    assert_eq!((m.pc(), m.sp()), (0x202, 0));
}

#[test]
fn store_bcd_writes_digits() {
    let mut m = Chip8::new();
    run(&mut m, &[0x65EA, 0xA300, 0xF533]);
    assert_eq!(m.read_memory(0x300), Ok(2));
    assert_eq!(m.read_memory(0x301), Ok(3));
    assert_eq!(m.read_memory(0x302), Ok(4));
    assert_eq!(m.read_memory(0x303), Ok(0));
}

#[test]
fn timers_run_down_in_one_second() {
    let mut m = Chip8::new();
    run(&mut m, &[0x603C, 0xF015, 0x6128, 0xF118]);
    assert_eq!((m.delay_timer(), m.sound_timer()), (60, 40));
    for k in 0..60 {
        for _ in 0..(k % 7) {
            run(&mut m, &[0x7201]);
        }
        let tone = m.tick();
        assert_eq!(tone, k < 40);
    }
    assert_eq!((m.delay_timer(), m.sound_timer()), (0, 0));
    assert!(!m.tick());
    assert_eq!(m.delay_timer(), 0);
    run(&mut m, &[0xF307]);
    assert_eq!(m.v(3), 0);
}

#[test]
fn key_skips_consume_the_latch() {
    let mut m = Chip8::new();
    run(&mut m, &[0x6005]);
    m.set_key_pressed(Some(5));
    run(&mut m, &[0xE09E]);
    assert_eq!((m.pc(), m.key_pressed()), (0x202, None));
    m.set_key_pressed(Some(3));
    run(&mut m, &[0xE09E]);
    assert_eq!((m.pc(), m.key_pressed()), (0x202, None));
    m.set_key_pressed(Some(3));
    run(&mut m, &[0xE0A1]);
    assert_eq!((m.pc(), m.key_pressed()), (0x204, None));
    m.set_key_pressed(Some(5));
    run(&mut m, &[0xE0A1]);
    assert_eq!((m.pc(), m.key_pressed()), (0x204, None));
    run(&mut m, &[0xE0A1]);
    assert_eq!((m.pc(), m.key_pressed()), (0x206, None));
    run(&mut m, &[0xE09E]);
    assert_eq!((m.pc(), m.key_pressed()), (0x206, None));
}

#[test]
fn add_to_index_flags_past_address_space() {
    let mut m = Chip8::new();
    run(&mut m, &[0xAFFE, 0x6102, 0xF11E]);
    assert_eq!((m.index(), m.v(0xF)), (0x1000, 1));
    run(&mut m, &[0xA100, 0x6102, 0xF11E]);
    assert_eq!((m.index(), m.v(0xF)), (0x102, 0));
}

#[test]
fn skips_and_jumps() {
    let mut m = Chip8::new();
    run(&mut m, &[0x6111, 0x3111]);
    assert_eq!(m.pc(), 0x202);
    run(&mut m, &[0x3112, 0x4112]);
    assert_eq!(m.pc(), 0x204);
    run(&mut m, &[0x6211, 0x5120, 0x9120]);
    assert_eq!(m.pc(), 0x206);
    run(&mut m, &[0x1ABC]);
    assert_eq!(m.pc(), 0xABC);
    run(&mut m, &[0x6004, 0xB010]);
    assert_eq!(m.pc(), 0xAD0);
}

#[test]
fn random_byte_is_masked() {
    let mut m = Chip8::new();
    assert_eq!(m.execute(0xC00F, 0xAB), Ok(StepStatus::Running));
    assert_eq!(m.v(0), 0x0B);
    assert_eq!(m.load_prog(&[0xC1, 0xF0, 0xC2, 0x00]), Ok(()));
    assert_eq!(m.step(), Ok(StepStatus::Running));
    assert_eq!(m.v(1) & 0x0F, 0);
    assert_eq!(m.step(), Ok(StepStatus::Running));
    assert_eq!(m.v(2), 0);
    assert_eq!(m.pc(), 0x204);
}

#[test]
fn register_transfers() {
    let mut m = Chip8::new();
    run(&mut m, &[0x6001, 0x6102, 0x6203, 0xA400, 0xF255]);
    assert_eq!(m.read_memory(0x400), Ok(1));
    assert_eq!(m.read_memory(0x402), Ok(3));
    assert_eq!(m.read_memory(0x403), Ok(0));
    run(&mut m, &[0x6000, 0x6100, 0x6200, 0xF165]);
    assert_eq!((m.v(0), m.v(1), m.v(2)), (1, 2, 0));
    assert_eq!(m.index(), 0x400);
}

#[test]
fn wait_for_key_suspends_until_latched() {
    let mut m = Chip8::new();
    assert_eq!(m.load_prog(&[0xF3, 0x0A]), Ok(()));
    assert_eq!(m.step_with(0), Ok(StepStatus::AwaitingKey));
    assert_eq!(m.pc(), 0x200);
    m.set_key_pressed(Some(7));
    assert_eq!(m.step_with(0), Ok(StepStatus::Running));
    assert_eq!((m.v(3), m.pc(), m.key_pressed()), (7, 0x202, None));
}

#[test]
fn fatal_conditions() {
    let mut m = Chip8::new();
    assert_eq!(m.execute(0x00EE, 0), Err(Chip8Error::StackUnderflow));
    for _ in 0..16 {
        run(&mut m, &[0x2300]);
    }
    assert_eq!(m.execute(0x2300, 0), Err(Chip8Error::StackOverflow));
    assert_eq!(m.sp(), 16);
    let mut m = Chip8::new();
    assert_eq!(m.load_prog(&[0x51, 0x21]), Ok(()));
    assert_eq!(m.step_with(0), Err(Chip8Error::InvalidOpcode { opcode: 0x5121, addr: 0x200 }));
    assert_eq!(m.execute(0x8018, 0), Err(Chip8Error::InvalidOpcode { opcode: 0x8018, addr: 0x200 }));
    assert_eq!(m.execute(0xE0FF, 0), Err(Chip8Error::InvalidOpcode { opcode: 0xE0FF, addr: 0x200 }));
    assert_eq!(m.execute(0xF0FF, 0), Err(Chip8Error::InvalidOpcode { opcode: 0xF0FF, addr: 0x200 }));
    run(&mut m, &[0x1FFF]);
    assert_eq!(m.step_with(0), Err(Chip8Error::OutOfBounds(4096)));
    run(&mut m, &[0xAFFE]);
    assert_eq!(m.execute(0xF033, 0), Err(Chip8Error::OutOfBounds(4096)));
    assert_eq!(m.execute(0xD003, 0), Err(Chip8Error::OutOfBounds(4096)));
    assert_eq!(m.execute(0xD002, 0), Ok(StepStatus::Running));
    let mut m = Chip8::new();
    assert_eq!(m.load_prog(&vec![0u8; 0xE01]), Err(Chip8Error::ProgramTooLarge));
    assert_eq!(m.load_prog(&vec![0u8; 0xE00]), Ok(()));
}

#[test]
fn keyboard_block_maps_to_keypad() {
    assert_eq!(keyboard_match('1'), Some(0x1));
    assert_eq!(keyboard_match('4'), Some(0xC));
    assert_eq!(keyboard_match('q'), Some(0x4));
    assert_eq!(keyboard_match('r'), Some(0xD));
    assert_eq!(keyboard_match('x'), Some(0x0));
    assert_eq!(keyboard_match('v'), Some(0xF));
    assert_eq!(keyboard_match('p'), None);
}
