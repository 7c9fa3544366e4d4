//! End-to-end tests of the interpreter through its public interface.

use chip8::Chip8Error;
use chip8::StepNote;
use chip8::cpu::Cpu;
use chip8::display::Display;
use chip8::system::System;

/// A machine with `words` assembled big-endian from 0x200 on.
fn machine_with(words: &[u16]) -> Cpu {
    let mut bytes: Vec<u8> = Vec::new();
    for w in words {
        bytes.push((w >> 8) as u8);
        bytes.push((w & 0xFF) as u8);
    }
    let mut cpu = Cpu::new();
    cpu.load_game(&bytes).unwrap();
    cpu
}

#[test]
fn initial_state() {
    let cpu = Cpu::new();
    assert_eq!(cpu.pc(), 0x200);
    assert_eq!(cpu.index_reg(), 0);
    assert_eq!(cpu.stack_depth(), 0);
    assert_eq!(cpu.delay_timer(), 0);
    assert_eq!(cpu.sound_timer(), 0);
    for x in 0..16 {
        assert_eq!(cpu.reg(x), 0);
    }
}

#[test]
fn font_table_installed() {
    let cpu = Cpu::new();
    // First glyph (0) and last glyph (F), byte for byte.
    let zero = [0xF0, 0x90, 0x90, 0x90, 0xF0];
    let ef = [0xF0, 0x80, 0xF0, 0x80, 0x80];
    for k in 0..5 {
        assert_eq!(cpu.read_mem(k), zero[k]);
        assert_eq!(cpu.read_mem(75 + k), ef[k]);
    }
    assert_eq!(cpu.read_mem(80), 0);
}

#[test]
fn program_too_large_rejected() {
    let mut cpu = Cpu::new();
    let too_big = vec![0u8; 4096 - 0x200 + 1];
    assert_eq!(cpu.load_game(&too_big), Err(Chip8Error::ProgramTooLarge));
    // The largest program that fits is accepted.
    let just_fits = vec![0xA5u8; 4096 - 0x200];
    assert_eq!(cpu.load_game(&just_fits), Ok(()));
    assert_eq!(cpu.read_mem(0x200), 0xA5);
    assert_eq!(cpu.read_mem(4095), 0xA5);
}

#[test]
fn load_then_add_wraps() {
    // V3 = 42, then V3 += 255: the sum wraps mod 256 and VF stays 0.
    let mut cpu = machine_with(&[0x632A, 0x73FF]);
    cpu.step().unwrap();
    cpu.step().unwrap();
    assert_eq!(cpu.reg(3), ((42 + 255) % 256) as u8);
    assert_eq!(cpu.reg(0xF), 0);
    assert_eq!(cpu.pc(), 0x204);
}

#[test]
fn add_with_carry_sets_flag() {
    let mut cpu = machine_with(&[0x60C8, 0x6164, 0x8014]);
    for _ in 0..3 {
        cpu.step().unwrap();
    }
    assert_eq!(cpu.reg(0), ((200 + 100) % 256) as u8);
    assert_eq!(cpu.reg(0xF), 1);
    // Without overflow the flag is 0.
    let mut cpu = machine_with(&[0x6005, 0x6102, 0x8014]);
    for _ in 0..3 {
        cpu.step().unwrap();
    }
    assert_eq!(cpu.reg(0), 7);
    assert_eq!(cpu.reg(0xF), 0);
}

#[test]
fn subtract_borrow_flags() {
    // V0 - V1 with V0 < V1: wraps, VF = 0 (borrow).
    let mut cpu = machine_with(&[0x600A, 0x6114, 0x8015]);
    for _ in 0..3 {
        cpu.step().unwrap();
    }
    assert_eq!(cpu.reg(0), 246);
    assert_eq!(cpu.reg(0xF), 0);
    // Reverse subtraction V1 - V0 with V1 > V0: VF = 1 (no borrow).
    let mut cpu = machine_with(&[0x600A, 0x6114, 0x8017]);
    for _ in 0..3 {
        cpu.step().unwrap();
    }
    assert_eq!(cpu.reg(0), 10);
    assert_eq!(cpu.reg(0xF), 1);
}

#[test]
fn shifts_capture_shifted_out_bit() {
    let mut cpu = machine_with(&[0x6005, 0x8006]);
    cpu.step().unwrap();
    cpu.step().unwrap();
    assert_eq!(cpu.reg(0), 2);
    assert_eq!(cpu.reg(0xF), 1);
    let mut cpu = machine_with(&[0x6081, 0x800E]);
    cpu.step().unwrap();
    cpu.step().unwrap();
    assert_eq!(cpu.reg(0), 2);
    assert_eq!(cpu.reg(0xF), 1);
}

#[test]
fn logic_ops() {
    let mut cpu = machine_with(&[0x60CC, 0x61AA, 0x8011]);
    for _ in 0..3 {
        cpu.step().unwrap();
    }
    assert_eq!(cpu.reg(0), 0xCC | 0xAA);
    let mut cpu = machine_with(&[0x60CC, 0x61AA, 0x8012]);
    for _ in 0..3 {
        cpu.step().unwrap();
    }
    assert_eq!(cpu.reg(0), 0xCC & 0xAA);
    let mut cpu = machine_with(&[0x60CC, 0x61AA, 0x8013]);
    for _ in 0..3 {
        cpu.step().unwrap();
    }
    assert_eq!(cpu.reg(0), 0xCC ^ 0xAA);
    let mut cpu = machine_with(&[0x61AA, 0x8010]);
    cpu.step().unwrap();
    cpu.step().unwrap();
    assert_eq!(cpu.reg(0), 0xAA);
}

#[test]
fn jump_executes_target_not_after_it() {
    // Jump to 0x206; the word there loads V4, the words before it must not run.
    let mut cpu = machine_with(&[0x1206, 0x6499, 0x6477, 0x6405]);
    cpu.step().unwrap();
    assert_eq!(cpu.pc(), 0x206);
    cpu.step().unwrap();
    assert_eq!(cpu.reg(4), 5);
    assert_eq!(cpu.pc(), 0x208);
}

#[test]
fn jump_with_offset() {
    let mut cpu = machine_with(&[0x6004, 0xB300]);
    cpu.step().unwrap();
    cpu.step().unwrap();
    assert_eq!(cpu.pc(), 0x304);
}

#[test]
fn call_then_return_resumes_after_call() {
    // Call 0x206, which returns at once: the machine resumes at 0x202.
    let mut cpu = machine_with(&[0x2206, 0x0000, 0x0000, 0x00EE]);
    cpu.step().unwrap();
    assert_eq!(cpu.pc(), 0x206);
    assert_eq!(cpu.stack_depth(), 1);
    cpu.step().unwrap();
    assert_eq!(cpu.pc(), 0x202);
    assert_eq!(cpu.stack_depth(), 0);
}

#[test]
fn sixteen_calls_succeed_seventeenth_overflows() {
    let mut cpu = Cpu::new();
    for depth in 1..=16 {
        assert_eq!(cpu.execute_opcode(0x2300, 0), Ok(StepNote::Executed));
        assert_eq!(cpu.stack_depth(), depth);
    }
    assert_eq!(cpu.execute_opcode(0x2300, 0), Err(Chip8Error::StackOverflow));
    assert_eq!(cpu.stack_depth(), 16);
}

#[test]
fn return_with_empty_stack_underflows() {
    let mut cpu = Cpu::new();
    assert_eq!(cpu.execute_opcode(0x00EE, 0), Err(Chip8Error::StackUnderflow));
    assert_eq!(cpu.pc(), 0x200);
}

#[test]
fn skips_advance_four_or_two() {
    let mut cpu = Cpu::new();
    cpu.execute_opcode(0x6505, 0).unwrap(); // V5 = 5
    cpu.execute_opcode(0x6605, 0).unwrap(); // V6 = 5
    cpu.execute_opcode(0x6707, 0).unwrap(); // V7 = 7
    let base = cpu.pc();

    // 3xkk: equal-immediate. Condition holds, then fails.
    cpu.execute_opcode(0x3505, 0).unwrap();
    assert_eq!(cpu.pc(), base + 4);
    cpu.execute_opcode(0x3506, 0).unwrap();
    assert_eq!(cpu.pc(), base + 6);

    // 4xkk: not-equal-immediate.
    cpu.execute_opcode(0x4505, 0).unwrap();
    assert_eq!(cpu.pc(), base + 8);
    cpu.execute_opcode(0x4506, 0).unwrap();
    assert_eq!(cpu.pc(), base + 12);

    // 5xy0: equal-register.
    cpu.execute_opcode(0x5560, 0).unwrap();
    assert_eq!(cpu.pc(), base + 16);
    cpu.execute_opcode(0x5570, 0).unwrap();
    assert_eq!(cpu.pc(), base + 18);

    // 9xy0: not-equal-register.
    cpu.execute_opcode(0x9560, 0).unwrap();
    assert_eq!(cpu.pc(), base + 20);
    cpu.execute_opcode(0x9570, 0).unwrap();
    assert_eq!(cpu.pc(), base + 24);
}

#[test]
fn key_skips_both_branches() {
    let mut cpu = Cpu::new();
    cpu.execute_opcode(0x6007, 0).unwrap(); // V0 = key 7
    let base = cpu.pc();
    cpu.execute_opcode(0xE09E, 0).unwrap(); // not pressed: +2
    assert_eq!(cpu.pc(), base + 2);
    cpu.execute_opcode(0xE0A1, 0).unwrap(); // not pressed: +4
    assert_eq!(cpu.pc(), base + 6);
    cpu.keypad.press(7, true);
    cpu.execute_opcode(0xE09E, 0).unwrap(); // pressed: +4
    assert_eq!(cpu.pc(), base + 10);
    cpu.execute_opcode(0xE0A1, 0).unwrap(); // pressed: +2
    assert_eq!(cpu.pc(), base + 12);
}

#[test]
fn key_wait_blocks_until_press() {
    let mut cpu = machine_with(&[0xF50A]);
    for _ in 0..3 {
        cpu.step().unwrap();
        assert_eq!(cpu.pc(), 0x200);
    }
    cpu.keypad.press(7, true);
    cpu.step().unwrap();
    assert_eq!(cpu.pc(), 0x202);
    assert_eq!(cpu.reg(5), 7);
}

#[test]
fn key_wait_captures_lowest_pressed_key() {
    let mut cpu = machine_with(&[0xF00A]);
    cpu.keypad.press(9, true);
    cpu.keypad.press(4, true);
    cpu.step().unwrap();
    assert_eq!(cpu.reg(0), 4);
    // A released key no longer counts.
    let mut cpu = machine_with(&[0xF00A]);
    cpu.keypad.press(4, true);
    cpu.keypad.press(4, false);
    cpu.step().unwrap();
    assert_eq!(cpu.pc(), 0x200);
}

#[test]
fn dump_load_round_trip() {
    let mut cpu = Cpu::new();
    for x in 0..16u16 {
        // Vx = 3x + 1, so every register is distinct and nonzero.
        cpu.execute_opcode(0x6000 | (x << 8) | (3 * x + 1), 0).unwrap();
    }
    cpu.execute_opcode(0xA300, 0).unwrap();
    cpu.execute_opcode(0xFF55, 0).unwrap();
    // The dump wrote V0..VF to 0x300..0x310 and left I alone.
    assert_eq!(cpu.index_reg(), 0x300);
    for x in 0..16usize {
        assert_eq!(cpu.read_mem(0x300 + x), (3 * x + 1) as u8);
    }
    // Wipe the registers, then load them back.
    for x in 0..16u16 {
        cpu.execute_opcode(0x6000 | (x << 8), 0).unwrap();
        assert_eq!(cpu.reg(x as usize), 0);
    }
    cpu.execute_opcode(0xFF65, 0).unwrap();
    for x in 0..16usize {
        assert_eq!(cpu.reg(x), (3 * x + 1) as u8);
    }
}

#[test]
fn dump_load_round_trip_partial() {
    // Only V0..Vx move for x = 2; V3 stays out of it.
    let mut cpu = Cpu::new();
    cpu.execute_opcode(0x6011, 0).unwrap();
    cpu.execute_opcode(0x6122, 0).unwrap();
    cpu.execute_opcode(0x6233, 0).unwrap();
    cpu.execute_opcode(0x6344, 0).unwrap();
    cpu.execute_opcode(0xA400, 0).unwrap();
    cpu.execute_opcode(0xF255, 0).unwrap();
    assert_eq!(cpu.read_mem(0x400), 0x11);
    assert_eq!(cpu.read_mem(0x401), 0x22);
    assert_eq!(cpu.read_mem(0x402), 0x33);
    assert_eq!(cpu.read_mem(0x403), 0); // V3 was not dumped
    cpu.execute_opcode(0x6099, 0).unwrap();
    cpu.execute_opcode(0xF265, 0).unwrap();
    assert_eq!(cpu.reg(0), 0x11);
    assert_eq!(cpu.reg(1), 0x22);
    assert_eq!(cpu.reg(2), 0x33);
    assert_eq!(cpu.reg(3), 0x44);
}

#[test]
fn bcd_decomposition() {
    let mut cpu = Cpu::new();
    cpu.execute_opcode(0x67EA, 0).unwrap(); // V7 = 234
    cpu.execute_opcode(0xA350, 0).unwrap();
    cpu.execute_opcode(0xF733, 0).unwrap();
    assert_eq!(cpu.read_mem(0x350), 2);
    assert_eq!(cpu.read_mem(0x351), 3);
    assert_eq!(cpu.read_mem(0x352), 4);
    assert_eq!(cpu.index_reg(), 0x350);
}

#[test]
fn index_ops() {
    let mut cpu = Cpu::new();
    cpu.execute_opcode(0xA123, 0).unwrap();
    assert_eq!(cpu.index_reg(), 0x123);
    cpu.execute_opcode(0x6005, 0).unwrap();
    cpu.execute_opcode(0xF01E, 0).unwrap();
    assert_eq!(cpu.index_reg(), 0x128);
}

#[test]
fn font_address() {
    let mut cpu = Cpu::new();
    cpu.execute_opcode(0x610A, 0).unwrap(); // V1 = glyph A
    cpu.execute_opcode(0xF129, 0).unwrap();
    assert_eq!(cpu.index_reg(), 50);
    // The glyph A rows stand right there.
    assert_eq!(cpu.read_mem(50), 0xF0);
    assert_eq!(cpu.read_mem(54), 0x90);
}

#[test]
fn timers_saturate_at_zero() {
    let mut cpu = Cpu::new();
    cpu.execute_opcode(0x6003, 0).unwrap();
    cpu.execute_opcode(0xF015, 0).unwrap(); // delay = 3
    assert_eq!(cpu.delay_timer(), 3);
    for expect in [2, 1, 0, 0, 0] {
        cpu.tick_timers();
        assert_eq!(cpu.delay_timer(), expect);
    }
    // F007 reads the delay timer back.
    cpu.execute_opcode(0x6107, 0).unwrap();
    cpu.execute_opcode(0xF115, 0).unwrap();
    cpu.execute_opcode(0xF207, 0).unwrap();
    assert_eq!(cpu.reg(2), 7);
}

#[test]
fn silence_event_fires_exactly_once() {
    let mut cpu = Cpu::new();
    cpu.execute_opcode(0x6002, 0).unwrap();
    cpu.execute_opcode(0xF018, 0).unwrap(); // sound = 2
    assert_eq!(cpu.sound_timer(), 2);
    assert!(!cpu.tick_timers()); // 2 -> 1
    assert!(cpu.tick_timers()); // 1 -> 0: the silence event
    assert!(!cpu.tick_timers()); // stays 0, no second event
    assert_eq!(cpu.sound_timer(), 0);
}

#[test]
fn random_and_masks_result() {
    // Whatever byte the generator draws, the immediate masks it.
    let mut cpu = machine_with(&[0xC500, 0xC60F]);
    cpu.step().unwrap();
    assert_eq!(cpu.reg(5), 0);
    cpu.step().unwrap();
    assert_eq!(cpu.reg(6) & 0xF0, 0);
}

#[test]
fn random_and_uses_given_byte() {
    let mut cpu = Cpu::new();
    cpu.execute_opcode(0xC3FF, 0xAB).unwrap();
    assert_eq!(cpu.reg(3), 0xAB);
    cpu.execute_opcode(0xC30F, 0xAB).unwrap();
    assert_eq!(cpu.reg(3), 0x0B);
}

#[test]
fn unknown_opcodes_are_reported_noops() {
    let mut cpu = Cpu::new();
    assert_eq!(
        cpu.execute_opcode(0x0123, 0),
        Ok(StepNote::UnimplementedOpcode { opcode: 0x0123, pc: 0x200 })
    );
    assert_eq!(cpu.pc(), 0x202);
    assert_eq!(
        cpu.execute_opcode(0x8008, 0),
        Ok(StepNote::UnimplementedOpcode { opcode: 0x8008, pc: 0x202 })
    );
    assert_eq!(
        cpu.execute_opcode(0xE055, 0),
        Ok(StepNote::UnimplementedOpcode { opcode: 0xE055, pc: 0x204 })
    );
    assert_eq!(
        cpu.execute_opcode(0xF099, 0),
        Ok(StepNote::UnimplementedOpcode { opcode: 0xF099, pc: 0x206 })
    );
    assert_eq!(cpu.pc(), 0x208);
    assert_eq!(cpu.execute_opcode(0x6744, 0), Ok(StepNote::Executed));
}

#[test]
fn draw_wraps_around_right_edge() {
    // An 8-wide row at column 60 of row 28 lands on columns
    // 60, 61, 62, 63, 0, 1, 2, 3 of that same row.
    let mut d = Display::new();
    let collision = d.draw(60, 28, &[0xFF]);
    assert_eq!(collision, 0);
    for col in [60, 61, 62, 63, 0, 1, 2, 3] {
        assert!(d.pixel(col, 28));
    }
    for col in 4..60 {
        assert!(!d.pixel(col, 28));
    }
    for row in 0..32 {
        if row != 28 {
            for col in 0..64 {
                assert!(!d.pixel(col, row));
            }
        }
    }
}

#[test]
fn draw_wraps_around_bottom_edge() {
    let mut d = Display::new();
    d.draw(0, 30, &[0x80, 0x80, 0x80, 0x80]);
    assert!(d.pixel(0, 30));
    assert!(d.pixel(0, 31));
    assert!(d.pixel(0, 0));
    assert!(d.pixel(0, 1));
    assert!(!d.pixel(0, 2));
}

#[test]
fn draw_xor_collision() {
    let mut d = Display::new();
    assert_eq!(d.draw(10, 5, &[0b1010_0000]), 0);
    assert!(d.pixel(10, 5));
    assert!(!d.pixel(11, 5));
    assert!(d.pixel(12, 5));
    // Drawing the same row again erases it and reports the collision.
    assert_eq!(d.draw(10, 5, &[0b1010_0000]), 1);
    assert!(!d.pixel(10, 5));
    assert!(!d.pixel(12, 5));
    // Overlap on only some pixels still collides, and XOR keeps the rest.
    assert_eq!(d.draw(20, 9, &[0b1100_0000]), 0);
    assert_eq!(d.draw(21, 9, &[0b1000_0000]), 1);
    assert!(d.pixel(20, 9));
    assert!(!d.pixel(21, 9));
}

#[test]
fn draw_opcode_reads_sprite_at_index_register() {
    // Draw the built-in glyph 0 at (2, 3) through the opcodes alone.
    let mut cpu = machine_with(&[0x6100, 0xF129, 0x6002, 0x6303, 0xD035]);
    for _ in 0..5 {
        cpu.step().unwrap();
    }
    // Top row of glyph 0 is 0xF0: four lit pixels from column 2.
    for col in 2..6 {
        assert!(cpu.display.pixel(col, 3));
    }
    assert!(!cpu.display.pixel(6, 3));
    assert_eq!(cpu.reg(0xF), 0);
    // Drawing it again erases everything and sets the collision flag.
    let mut cpu2 = machine_with(&[0x6100, 0xF129, 0x6002, 0x6303, 0xD035, 0xD035]);
    for _ in 0..6 {
        cpu2.step().unwrap();
    }
    assert_eq!(cpu2.reg(0xF), 1);
    for col in 2..6 {
        assert!(!cpu2.display.pixel(col, 3));
    }
}

#[test]
fn clear_screen_opcode() {
    let mut cpu = Cpu::new();
    cpu.display.draw(1, 1, &[0xFF]);
    assert!(cpu.display.pixel(1, 1));
    cpu.execute_opcode(0x00E0, 0).unwrap();
    for col in 0..64 {
        assert!(!cpu.display.pixel(col, 1));
    }
    assert_eq!(cpu.pc(), 0x202);
}

#[test]
fn display_redraw_flag() {
    let mut d = Display::new();
    assert!(d.needs_redraw());
    d.mark_presented();
    assert!(!d.needs_redraw());
    d.draw(0, 0, &[0x80]);
    assert!(d.needs_redraw());
    d.mark_presented();
    d.clear();
    assert!(d.needs_redraw());
}

#[test]
fn emulate_cycle_steps_and_ticks() {
    // Set the sound timer to 1, then watch one later cycle raise the
    // silence event while executing an ordinary instruction.
    let mut cpu = machine_with(&[0x6001, 0xF018, 0x6205]);
    let (note, silence) = cpu.emulate_cycle().unwrap();
    assert_eq!(note, StepNote::Executed);
    assert!(!silence);
    let (_, silence) = cpu.emulate_cycle().unwrap();
    // F018 set the sound timer to 1 and the same cycle ticked it to 0.
    assert!(silence);
    assert_eq!(cpu.sound_timer(), 0);
    let (_, silence) = cpu.emulate_cycle().unwrap();
    assert!(!silence);
    assert_eq!(cpu.reg(2), 5);
}

#[test]
fn register_move() {
    let mut cpu = Cpu::new();
    cpu.execute_opcode(0x6A42, 0).unwrap();
    cpu.execute_opcode(0x8BA0, 0).unwrap();
    assert_eq!(cpu.reg(0xB), 0x42);
}

#[test]
fn system_runs_a_program() {
    let program = vec![0x65, 0x2A, 0x75, 0x01];
    let mut sys = System::new(&program).unwrap();
    assert_eq!(sys.machine().pc(), 0x200);
    sys.cycle().unwrap();
    sys.cycle().unwrap();
    assert_eq!(sys.machine().reg(5), 43);
    assert_eq!(sys.machine().pc(), 0x204);
}

#[test]
fn system_rejects_oversized_program() {
    let too_big = vec![0u8; 4000];
    assert!(matches!(System::new(&too_big), Err(Chip8Error::ProgramTooLarge)));
}
