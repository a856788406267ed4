use chip8::cycle::Emulation;
use chip8::machine::Chip8;
use chip8::{CycleOutcome, EmuError};

fn boot(rom: Vec<u8>) -> Chip8 {
    Chip8::new(&rom).unwrap()
}

#[test]
fn test_memory_init_layout() {
    let c = boot(vec![0xAB, 0xCD]);
    assert_eq!(c.memory.len(), 4096);
    assert_eq!(c.memory[0], 0xF0); // first font byte
    assert_eq!(c.memory[79], 0x80); // last font byte
    assert_eq!(c.memory[80], 0); // reserved gap reads zero
    assert_eq!(c.memory[0x1FF], 0);
    assert_eq!(c.memory[0x200], 0xAB);
    assert_eq!(c.memory[0x201], 0xCD);
    assert_eq!(c.memory[0x202], 0);
    assert_eq!(c.pc, 0x200);
    assert_eq!(c.sp, 0);
    assert_eq!(c.i, 0);
    assert!(c.v.iter().all(|&r| r == 0));
    assert!(c.gfx.iter().all(|&p| !p));
    assert_eq!(c.gfx.len(), 2048);
}

#[test]
fn test_rom_too_large() {
    let rom = vec![0u8; 3585];
    assert_eq!(Chip8::new(&rom).unwrap_err(), EmuError::RomTooLarge);
    let rom = vec![7u8; 3584];
    let c = Chip8::new(&rom).unwrap();
    assert_eq!(c.memory[4095], 7);
}

#[test]
fn test_load_immediate() {
    // P1 scenario: 6xkk puts kk in vx and advances by 2.
    let mut c = boot(vec![0x60, 0x42, 0x6A, 0xFF]);
    let out = c.emulate_cycle().unwrap();
    assert_eq!(c.v[0], 0x42);
    assert_eq!(c.pc, 0x202);
    assert!(!out.redraw);
    c.emulate_cycle().unwrap();
    assert_eq!(c.v[0xA], 0xFF);
    assert_eq!(c.pc, 0x204);
}

#[test]
fn test_add_immediate_wraps() {
    // P2: 0xFF + 0x02 wraps to 0x01 and no flag is touched.
    let mut c = boot(vec![0x60, 0xFF, 0x70, 0x02]);
    c.v[0xF] = 0x55; // sentinel: 7xkk must not touch the flag register
    c.emulate_cycle().unwrap();
    c.emulate_cycle().unwrap();
    assert_eq!(c.v[0], 0x01);
    assert_eq!(c.v[0xF], 0x55);
    assert_eq!(c.pc, 0x204);
}

#[test]
fn test_add_with_carry() {
    // P3: 8xy4 with 0xFF + 0x01, then 0x01 + 0x01.
    let mut c = boot(vec![0x80, 0x14]);
    c.v[0] = 0xFF;
    c.v[1] = 0x01;
    c.emulate_cycle().unwrap();
    assert_eq!(c.v[0], 0x00);
    assert_eq!(c.v[0xF], 1);

    let mut c = boot(vec![0x80, 0x14]);
    c.v[0] = 0x01;
    c.v[1] = 0x01;
    c.emulate_cycle().unwrap();
    assert_eq!(c.v[0], 0x02);
    assert_eq!(c.v[0xF], 0);
}

#[test]
fn test_sub_with_borrow() {
    // P4: 8xy5 with 0x01 - 0x02 (borrow), then 0x02 - 0x01 (none).
    let mut c = boot(vec![0x80, 0x15]);
    c.v[0] = 0x01;
    c.v[1] = 0x02;
    c.emulate_cycle().unwrap();
    assert_eq!(c.v[0], 0xFF);
    assert_eq!(c.v[0xF], 0);

    let mut c = boot(vec![0x80, 0x15]);
    c.v[0] = 0x02;
    c.v[1] = 0x01;
    c.emulate_cycle().unwrap();
    assert_eq!(c.v[0], 0x01);
    assert_eq!(c.v[0xF], 1);
}

#[test]
fn test_call_return_round_trip() {
    // P5: a 2200 call from pc = 0x200 followed by 00EE lands on 0x202 with
    // the stack pointer back where it was.
    let mut c = boot(vec![]);
    assert_eq!(c.pc, 0x200);
    c.op_2nnn(0x200).unwrap();
    assert_eq!(c.pc, 0x200);
    assert_eq!(c.sp, 1);
    assert_eq!(c.stack[0], 0x202);
    c.op_00ee().unwrap();
    assert_eq!(c.pc, 0x202);
    assert_eq!(c.sp, 0);
}

#[test]
fn test_clear_screen() {
    // P6: 00E0 clears all 2048 cells whatever they held.
    let mut c = boot(vec![0x00, 0xE0]);
    for p in (0..2048).step_by(3) {
        c.gfx[p] = true;
    }
    let out = c.emulate_cycle().unwrap();
    assert!(out.redraw);
    assert!(c.gfx.iter().all(|&p| !p));
    assert_eq!(c.pc, 0x202);
}

#[test]
fn test_draw_and_collision() {
    // P7 scenario: the same sprite drawn twice at the same coordinates
    // collides on the second draw and restores the blank screen.
    let mut c = boot(vec![0xD0, 0x12, 0xD0, 0x12]);
    c.i = 0x300;
    c.memory[0x300] = 0xFF;
    c.memory[0x301] = 0x81;
    c.v[0] = 3; // column
    c.v[1] = 5; // row
    let out = c.emulate_cycle().unwrap();
    assert!(out.redraw);
    assert_eq!(c.v[0xF], 0);
    // row 5: bits 0..8 of 0xFF at columns 3..11
    for col in 3..11 {
        assert!(c.gfx[5 * 64 + col]);
    }
    // row 6: 0x81 sets only columns 3 and 10
    assert!(c.gfx[6 * 64 + 3]);
    assert!(!c.gfx[6 * 64 + 4]);
    assert!(c.gfx[6 * 64 + 10]);
    c.emulate_cycle().unwrap();
    assert_eq!(c.v[0xF], 1);
    assert!(c.gfx.iter().all(|&p| !p));
    assert_eq!(c.pc, 0x204);
}

#[test]
fn test_draw_wraps_both_axes() {
    let mut c = boot(vec![0xD0, 0x12]);
    c.i = 0x300;
    c.memory[0x300] = 0xC0; // two leftmost sprite columns
    c.memory[0x301] = 0xC0;
    c.v[0] = 63; // wraps to column 0
    c.v[1] = 31; // second row wraps to row 0
    c.emulate_cycle().unwrap();
    assert!(c.gfx[31 * 64 + 63]);
    assert!(c.gfx[31 * 64 + 0]);
    assert!(c.gfx[0 * 64 + 63]);
    assert!(c.gfx[0 * 64 + 0]);
    assert_eq!(c.v[0xF], 0);
}

#[test]
fn test_draw_out_of_bounds_sprite() {
    let mut c = boot(vec![0xD0, 0x12]);
    c.i = 4095; // two rows would run past the end of memory
    assert_eq!(c.emulate_cycle().unwrap_err(), EmuError::OutOfBounds);
    assert_eq!(c.pc, 0x200);
}

#[test]
fn test_unknown_opcodes_skip() {
    // P8 scenario: unrecognized patterns in several classes are skipped.
    for rom in [vec![0x0F, 0xFF], vec![0x8F, 0xF8], vec![0x5A, 0xB1], vec![0xE1, 0x00], vec![
        0xFA, 0xFF,
    ]] {
        let mut c = boot(rom);
        let out = c.emulate_cycle().unwrap();
        assert_eq!(c.pc, 0x202);
        assert!(!out.redraw);
        assert!(c.v.iter().all(|&r| r == 0));
        assert_eq!(c.sp, 0);
    }
}

#[test]
fn test_stack_overflow_on_seventeenth_call() {
    // P9: sixteen nested calls succeed, the seventeenth is fatal.
    let mut c = boot(vec![0x22, 0x00]); // call 0x200, forever
    for depth in 1..=16 {
        c.emulate_cycle().unwrap();
        assert_eq!(c.sp, depth);
        assert_eq!(c.pc, 0x200);
    }
    assert_eq!(c.emulate_cycle().unwrap_err(), EmuError::StackOverflow);
    assert_eq!(c.sp, 16);
    assert_eq!(c.pc, 0x200);
}

#[test]
fn test_stack_underflow_on_bare_return() {
    let mut c = boot(vec![0x00, 0xEE]);
    assert_eq!(c.emulate_cycle().unwrap_err(), EmuError::StackUnderflow);
    assert_eq!(c.pc, 0x200);
}

#[test]
fn test_fetch_out_of_bounds() {
    let mut c = boot(vec![]);
    c.pc = 4095;
    assert_eq!(c.emulate_cycle().unwrap_err(), EmuError::OutOfBounds);
    c.pc = 4094;
    assert!(c.emulate_cycle().is_ok()); // 0000 is an unknown opcode: skipped
}

#[test]
fn test_jump() {
    let mut c = boot(vec![0x1A, 0xBC]);
    c.emulate_cycle().unwrap();
    assert_eq!(c.pc, 0xABC);
}

#[test]
fn test_jump_with_offset() {
    let mut c = boot(vec![0xB3, 0x00]);
    c.v[0] = 5;
    c.emulate_cycle().unwrap();
    assert_eq!(c.pc, 0x305);
}

#[test]
fn test_skip_if_equal_immediate() {
    let mut c = boot(vec![0x30, 0x07]);
    c.v[0] = 0x07;
    c.emulate_cycle().unwrap();
    assert_eq!(c.pc, 0x204);
    let mut c = boot(vec![0x30, 0x07]);
    c.v[0] = 0x08;
    c.emulate_cycle().unwrap();
    assert_eq!(c.pc, 0x202);
}

#[test]
fn test_skip_if_not_equal_immediate() {
    let mut c = boot(vec![0x40, 0x07]);
    c.v[0] = 0x07;
    c.emulate_cycle().unwrap();
    assert_eq!(c.pc, 0x202);
    let mut c = boot(vec![0x40, 0x07]);
    c.v[0] = 0x08;
    c.emulate_cycle().unwrap();
    assert_eq!(c.pc, 0x204);
}

#[test]
fn test_skip_on_register_compare() {
    let mut c = boot(vec![0x50, 0x10]);
    c.v[0] = 9;
    c.v[1] = 9;
    c.emulate_cycle().unwrap();
    assert_eq!(c.pc, 0x204);
    let mut c = boot(vec![0x90, 0x10]);
    c.v[0] = 9;
    c.v[1] = 9;
    c.emulate_cycle().unwrap();
    assert_eq!(c.pc, 0x202);
    let mut c = boot(vec![0x90, 0x10]);
    c.v[0] = 9;
    c.v[1] = 8;
    c.emulate_cycle().unwrap();
    assert_eq!(c.pc, 0x204);
}

#[test]
fn test_alu_set_or_and_xor() {
    let mut c = boot(vec![0x80, 0x10]);
    c.v[1] = 0x5A;
    c.emulate_cycle().unwrap();
    assert_eq!(c.v[0], 0x5A);

    let mut c = boot(vec![0x80, 0x11]);
    c.v[0] = 0xF0;
    c.v[1] = 0x0F;
    c.emulate_cycle().unwrap();
    assert_eq!(c.v[0], 0xFF);

    let mut c = boot(vec![0x80, 0x12]);
    c.v[0] = 0xF6;
    c.v[1] = 0x0F;
    c.emulate_cycle().unwrap();
    assert_eq!(c.v[0], 0x06);

    let mut c = boot(vec![0x80, 0x13]);
    c.v[0] = 0xFF;
    c.v[1] = 0x0F;
    c.emulate_cycle().unwrap();
    assert_eq!(c.v[0], 0xF0);
}

#[test]
fn test_reverse_subtract() {
    let mut c = boot(vec![0x80, 0x17]);
    c.v[0] = 0x01;
    c.v[1] = 0x03;
    c.emulate_cycle().unwrap();
    assert_eq!(c.v[0], 0x02);
    assert_eq!(c.v[0xF], 1);

    let mut c = boot(vec![0x80, 0x17]);
    c.v[0] = 0x03;
    c.v[1] = 0x01;
    c.emulate_cycle().unwrap();
    assert_eq!(c.v[0], 0xFE);
    assert_eq!(c.v[0xF], 0);
}

#[test]
fn test_shifts() {
    let mut c = boot(vec![0x80, 0x16]);
    c.v[0] = 0x05;
    c.emulate_cycle().unwrap();
    assert_eq!(c.v[0], 0x02);
    assert_eq!(c.v[0xF], 1);

    let mut c = boot(vec![0x80, 0x1E]);
    c.v[0] = 0x81;
    c.emulate_cycle().unwrap();
    assert_eq!(c.v[0], 0x02);
    assert_eq!(c.v[0xF], 1);

    let mut c = boot(vec![0x80, 0x1E]);
    c.v[0] = 0x41;
    c.emulate_cycle().unwrap();
    assert_eq!(c.v[0], 0x82);
    assert_eq!(c.v[0xF], 0);
}

#[test]
fn test_flag_register_as_destination() {
    // When vF is the destination of 8xy4 the sum, not the carry, survives.
    let mut c = boot(vec![0x8F, 0x14]);
    c.v[0xF] = 0x80;
    c.v[1] = 0x90;
    c.emulate_cycle().unwrap();
    assert_eq!(c.v[0xF], 0x10); // 0x80 + 0x90 wrapped, overwriting the flag
}

#[test]
fn test_load_index() {
    let mut c = boot(vec![0xA1, 0x23]);
    c.emulate_cycle().unwrap();
    assert_eq!(c.i, 0x123);
    assert_eq!(c.pc, 0x202);
}

#[test]
fn test_random_masked() {
    // The drawn byte is unpredictable, but the mask pins what it can touch.
    let mut c = boot(vec![0xC0, 0x0F]);
    c.emulate_cycle().unwrap();
    assert_eq!(c.v[0] & 0xF0, 0);
    assert_eq!(c.pc, 0x202);
    // With mask zero the result is fully determined.
    let mut c = boot(vec![0xC5, 0x00]);
    c.v[5] = 0xAA;
    c.emulate_cycle().unwrap();
    assert_eq!(c.v[5], 0);
}

#[test]
fn test_skip_on_key_state() {
    let mut c = boot(vec![0xE0, 0x9E]);
    c.v[0] = 4;
    c.set_key(4, true);
    c.emulate_cycle().unwrap();
    assert_eq!(c.pc, 0x204);

    let mut c = boot(vec![0xE0, 0x9E]);
    c.v[0] = 4;
    c.emulate_cycle().unwrap();
    assert_eq!(c.pc, 0x202);

    let mut c = boot(vec![0xE0, 0xA1]);
    c.v[0] = 4;
    c.emulate_cycle().unwrap();
    assert_eq!(c.pc, 0x204);
}

#[test]
fn test_key_index_out_of_range() {
    let mut c = boot(vec![0xE0, 0x9E]);
    c.v[0] = 16;
    assert_eq!(c.emulate_cycle().unwrap_err(), EmuError::OutOfBounds);
    let mut c = boot(vec![0xE0, 0xA1]);
    c.v[0] = 255;
    assert_eq!(c.emulate_cycle().unwrap_err(), EmuError::OutOfBounds);
}

#[test]
fn test_timers() {
    let mut c = boot(vec![0xF0, 0x15, 0xF1, 0x18, 0xF2, 0x07]);
    c.v[0] = 2;
    c.v[1] = 1;
    let out = c.emulate_cycle().unwrap(); // delay <- 2
    assert_eq!(c.delay_timer, 2);
    assert!(out.timers_active);
    c.emulate_cycle().unwrap(); // sound <- 1
    assert_eq!(c.sound_timer, 1);
    c.tick_timers();
    assert_eq!(c.delay_timer, 1);
    assert_eq!(c.sound_timer, 0);
    c.tick_timers();
    assert_eq!(c.delay_timer, 0);
    assert_eq!(c.sound_timer, 0); // never below zero
    c.emulate_cycle().unwrap(); // v2 <- delay
    assert_eq!(c.v[2], 0);
}

#[test]
fn test_wait_for_key_suspends_and_resumes() {
    let mut c = boot(vec![0xF5, 0x0A, 0x60, 0x01]);
    let out = c.emulate_cycle().unwrap();
    assert_eq!(c.pc, 0x200); // suspended on the instruction
    assert!(!out.redraw);
    c.emulate_cycle().unwrap();
    assert_eq!(c.pc, 0x200); // still waiting: the step is a no-op
    c.set_key(7, true);
    c.emulate_cycle().unwrap();
    assert_eq!(c.v[5], 7);
    assert_eq!(c.pc, 0x202); // the wait resolved and the instruction completed
    c.emulate_cycle().unwrap();
    assert_eq!(c.v[0], 1); // execution continues normally
}

#[test]
fn test_wait_for_key_immediate_when_pressed() {
    let mut c = boot(vec![0xF5, 0x0A]);
    c.set_key(3, true);
    c.set_key(9, true);
    c.emulate_cycle().unwrap();
    assert_eq!(c.v[5], 3); // the lowest pressed key wins
    assert_eq!(c.pc, 0x202);
}

#[test]
fn test_set_keys_whole_keypad() {
    let mut c = boot(vec![0xE2, 0x9E]);
    c.v[2] = 2;
    let mut keys = vec![false; 16];
    keys[2] = true;
    c.set_keys(&keys);
    assert_eq!(c.key, keys);
    c.emulate_cycle().unwrap();
    assert_eq!(c.pc, 0x204);
}

#[test]
fn test_add_to_index_wraps() {
    let mut c = boot(vec![0xF0, 0x1E]);
    c.i = 0xFFFF;
    c.v[0] = 2;
    c.emulate_cycle().unwrap();
    assert_eq!(c.i, 1);
}

#[test]
fn test_font_address() {
    let mut c = boot(vec![0xF0, 0x29]);
    c.v[0] = 0xA;
    c.emulate_cycle().unwrap();
    assert_eq!(c.i, 50); // glyph A sits at 10 * 5
    assert_eq!(c.memory[c.i as usize], 0xF0); // its first row
}

#[test]
fn test_bcd() {
    let mut c = boot(vec![0xF0, 0x33]);
    c.v[0] = 254;
    c.i = 0x300;
    c.emulate_cycle().unwrap();
    assert_eq!(c.memory[0x300], 2);
    assert_eq!(c.memory[0x301], 5);
    assert_eq!(c.memory[0x302], 4);
    assert_eq!(c.i, 0x300);

    let mut c = boot(vec![0xF0, 0x33]);
    c.i = 4094;
    assert_eq!(c.emulate_cycle().unwrap_err(), EmuError::OutOfBounds);
}

#[test]
fn test_store_and_load_registers() {
    let mut c = boot(vec![0xF3, 0x55]);
    c.v[0] = 10;
    c.v[1] = 11;
    c.v[2] = 12;
    c.v[3] = 13;
    c.v[4] = 99; // beyond x: must not be stored
    c.i = 0x320;
    c.emulate_cycle().unwrap();
    assert_eq!(c.memory[0x320], 10);
    assert_eq!(c.memory[0x321], 11);
    assert_eq!(c.memory[0x322], 12);
    assert_eq!(c.memory[0x323], 13);
    assert_eq!(c.memory[0x324], 0);
    assert_eq!(c.i, 0x320); // index unchanged afterward

    let mut c = boot(vec![0xF2, 0x65]);
    c.memory[0x340] = 21;
    c.memory[0x341] = 22;
    c.memory[0x342] = 23;
    c.memory[0x343] = 24;
    c.v[3] = 77;
    c.i = 0x340;
    c.emulate_cycle().unwrap();
    assert_eq!(c.v[0], 21);
    assert_eq!(c.v[1], 22);
    assert_eq!(c.v[2], 23);
    assert_eq!(c.v[3], 77); // beyond x: untouched
    assert_eq!(c.i, 0x340);

    let mut c = boot(vec![0xF3, 0x55]);
    c.i = 4093;
    assert_eq!(c.emulate_cycle().unwrap_err(), EmuError::OutOfBounds);
    let mut c = boot(vec![0xF3, 0x65]);
    c.i = 4093;
    assert_eq!(c.emulate_cycle().unwrap_err(), EmuError::OutOfBounds);
}

#[test]
fn test_outcome_reports_timers() {
    let mut c = boot(vec![0x60, 0x00]);
    let out: CycleOutcome = c.emulate_cycle().unwrap();
    assert!(!out.timers_active);
}
