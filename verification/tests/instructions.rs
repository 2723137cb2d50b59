use chip8::Chip8;
use chip8::Chip8Error;
use chip8::CycleEvent;

/// A machine with `rom` loaded, ready to run at 0x200.
fn boot(rom: Vec<u8>) -> Chip8 {
    let mut c = Chip8::new();
    c.load_rom(rom).unwrap();
    c
}

/// Run `n` cycles, requiring each to succeed.
fn run(c: &mut Chip8, n: usize) {
    for _ in 0..n {
        c.run_cpu_cycle().unwrap();
    }
}

#[test]
fn jump_sets_pc_exactly() {
    for nnn in [0x000u16, 0x001, 0x234, 0x345, 0xFFF] {
        let mut c = boot(vec![0x10 | (nnn >> 8) as u8, (nnn & 0xFF) as u8]);
        run(&mut c, 1);
        assert_eq!(c.get_program_counter(), nnn);
    }
}

#[test]
fn call_then_return_restores_pc_and_depth() {
    // 0x200: call 0x204; 0x204: return.
    let mut c = boot(vec![0x22, 0x04, 0x00, 0x00, 0x00, 0xEE]);
    run(&mut c, 1);
    assert_eq!(c.get_program_counter(), 0x204);
    assert_eq!(c.get_stack_depth(), 1);
    run(&mut c, 1);
    // Back at the instruction following the call, stack at its old depth.
    assert_eq!(c.get_program_counter(), 0x202);
    assert_eq!(c.get_stack_depth(), 0);
}

#[test]
fn add_registers_with_carry() {
    // (a, b, wrapped sum, flag)
    for (a, b, sum, flag) in [
        (5u8, 3u8, 8u8, 0u8),
        (200, 100, 44, 1),
        (255, 1, 0, 1),
        (0, 0, 0, 0),
        (255, 255, 254, 1),
    ] {
        let mut c = boot(vec![0x60, a, 0x61, b, 0x80, 0x14]);
        run(&mut c, 3);
        assert_eq!(c.get_register(0), sum);
        assert_eq!(c.get_register(0xF), flag);
    }
}

#[test]
fn end_to_end_three_instruction_program() {
    // V0 = 5; V1 = 3; V0 += V1 with carry flag.
    let mut c = boot(vec![0x60, 0x05, 0x61, 0x03, 0x80, 0x14]);
    run(&mut c, 3);
    assert_eq!(c.get_register(0), 8);
    assert_eq!(c.get_register(0xF), 0);
    assert_eq!(c.get_program_counter(), 0x206);
}

#[test]
fn subtract_with_borrow_flag() {
    // V5 = 5, V9 = 9, V5 -= V9: wraps to 252, borrow so flag 0.
    let mut c = boot(vec![0x65, 0x05, 0x69, 0x09, 0x85, 0x95]);
    run(&mut c, 3);
    assert_eq!(c.get_register(5), 252);
    assert_eq!(c.get_register(0xF), 0);
    // V5 = 9, V9 = 5: 4, no borrow so flag 1.
    let mut c = boot(vec![0x65, 0x09, 0x69, 0x05, 0x85, 0x95]);
    run(&mut c, 3);
    assert_eq!(c.get_register(5), 4);
    assert_eq!(c.get_register(0xF), 1);
}

#[test]
fn reverse_subtract_flag() {
    // V0 = 1, V1 = 3, V0 = V1 - V0: 2, no borrow so flag 1.
    let mut c = boot(vec![0x60, 0x01, 0x61, 0x03, 0x80, 0x17]);
    run(&mut c, 3);
    assert_eq!(c.get_register(0), 2);
    assert_eq!(c.get_register(0xF), 1);
    // V0 = 3, V1 = 1: wraps to 254, borrow so flag 0.
    let mut c = boot(vec![0x60, 0x03, 0x61, 0x01, 0x80, 0x17]);
    run(&mut c, 3);
    assert_eq!(c.get_register(0), 254);
    assert_eq!(c.get_register(0xF), 0);
}

#[test]
fn shift_right_keeps_low_bit_in_flag() {
    let mut c = boot(vec![0x60, 0x05, 0x80, 0x06]);
    run(&mut c, 2);
    assert_eq!(c.get_register(0), 2);
    assert_eq!(c.get_register(0xF), 1);
    let mut c = boot(vec![0x60, 0x04, 0x80, 0x06]);
    run(&mut c, 2);
    assert_eq!(c.get_register(0), 2);
    assert_eq!(c.get_register(0xF), 0);
}

#[test]
fn shift_left_keeps_high_bit_in_flag() {
    let mut c = boot(vec![0x60, 0x81, 0x80, 0x0E]);
    run(&mut c, 2);
    assert_eq!(c.get_register(0), 2);
    assert_eq!(c.get_register(0xF), 1);
    let mut c = boot(vec![0x60, 0x41, 0x80, 0x0E]);
    run(&mut c, 2);
    assert_eq!(c.get_register(0), 0x82);
    assert_eq!(c.get_register(0xF), 0);
}

#[test]
fn logic_ops_leave_flag_untouched() {
    // VF = 1 first, then V0 |= V1, V0 &= V1, V0 ^= V1.
    let mut c = boot(vec![
        0x6F, 0x01, 0x60, 0b1100, 0x61, 0b1010, 0x80, 0x11, 0x80, 0x12, 0x80, 0x13,
    ]);
    run(&mut c, 4);
    assert_eq!(c.get_register(0), 0b1110);
    run(&mut c, 1);
    assert_eq!(c.get_register(0), 0b1010);
    run(&mut c, 1);
    assert_eq!(c.get_register(0), 0);
    assert_eq!(c.get_register(0xF), 1);
}

#[test]
fn move_copies_source_register() {
    let mut c = boot(vec![0x61, 0x2A, 0x80, 0x10]);
    run(&mut c, 2);
    assert_eq!(c.get_register(0), 0x2A);
}

#[test]
fn add_immediate_wraps_without_flag() {
    let mut c = boot(vec![0x60, 0xFF, 0x70, 0xFF]);
    run(&mut c, 2);
    assert_eq!(c.get_register(0), 0xFE);
    assert_eq!(c.get_register(0xF), 0);
}

#[test]
fn skip_if_equal_immediate() {
    // V0 = 5; skip when V0 == 5: next instruction is skipped.
    let mut c = boot(vec![0x60, 0x05, 0x30, 0x05]);
    run(&mut c, 2);
    assert_eq!(c.get_program_counter(), 0x206);
    // V0 = 5; no skip when compared against 6.
    let mut c = boot(vec![0x60, 0x05, 0x30, 0x06]);
    run(&mut c, 2);
    assert_eq!(c.get_program_counter(), 0x204);
}

#[test]
fn skip_if_not_equal_immediate() {
    let mut c = boot(vec![0x60, 0x05, 0x40, 0x06]);
    run(&mut c, 2);
    assert_eq!(c.get_program_counter(), 0x206);
    let mut c = boot(vec![0x60, 0x05, 0x40, 0x05]);
    run(&mut c, 2);
    assert_eq!(c.get_program_counter(), 0x204);
}

#[test]
fn skip_register_comparisons() {
    // V0 == V1: 5XY0 skips; 9XY0 does not.
    let mut c = boot(vec![0x60, 0x07, 0x61, 0x07, 0x50, 0x10]);
    run(&mut c, 3);
    assert_eq!(c.get_program_counter(), 0x208);
    let mut c = boot(vec![0x60, 0x07, 0x61, 0x07, 0x90, 0x10]);
    run(&mut c, 3);
    assert_eq!(c.get_program_counter(), 0x206);
    // V0 != V1: the other way round.
    let mut c = boot(vec![0x60, 0x07, 0x61, 0x08, 0x90, 0x10]);
    run(&mut c, 3);
    assert_eq!(c.get_program_counter(), 0x208);
}

#[test]
fn jump_with_offset_adds_v0() {
    let mut c = boot(vec![0x60, 0x05, 0xB3, 0x00]);
    run(&mut c, 2);
    assert_eq!(c.get_program_counter(), 0x305);
}

#[test]
fn set_and_add_index_register() {
    let mut c = boot(vec![0xA1, 0x23, 0x60, 0x10, 0xF0, 0x1E]);
    run(&mut c, 1);
    assert_eq!(c.get_index_register(), 0x123);
    run(&mut c, 2);
    assert_eq!(c.get_index_register(), 0x133);
}

#[test]
fn add_index_wraps_at_twelve_bits() {
    // index = 0xFFF, V0 = 0xFF: the sum wraps into the 12-bit space.
    let mut c = boot(vec![0xAF, 0xFF, 0x60, 0xFF, 0xF0, 0x1E]);
    run(&mut c, 3);
    assert_eq!(c.get_index_register(), 0x0FE);
}

#[test]
fn font_address_uses_low_nibble_times_five() {
    let mut c = boot(vec![0x60, 0x0A, 0xF0, 0x29]);
    run(&mut c, 2);
    assert_eq!(c.get_index_register(), 50);
    // Only the low nibble of the register names the glyph.
    let mut c = boot(vec![0x60, 0xFA, 0xF0, 0x29]);
    run(&mut c, 2);
    assert_eq!(c.get_index_register(), 50);
}

#[test]
fn bcd_writes_three_decimal_digits() {
    // V0 = 147; BCD at 0x300; load V0..=V2 back from 0x300.
    let mut c = boot(vec![0x60, 0x93, 0xA3, 0x00, 0xF0, 0x33, 0xF2, 0x65]);
    run(&mut c, 3);
    assert_eq!(c.get_memory_byte(0x300), 1);
    assert_eq!(c.get_memory_byte(0x301), 4);
    assert_eq!(c.get_memory_byte(0x302), 7);
    run(&mut c, 1);
    assert_eq!(c.get_register(0), 1);
    assert_eq!(c.get_register(1), 4);
    assert_eq!(c.get_register(2), 7);
}

#[test]
fn block_store_and_load_registers() {
    // V0 = 5, V1 = 3; store V0..=V1 at 0x300; clear them; load them back.
    let mut c = boot(vec![
        0x60, 0x05, 0x61, 0x03, 0xA3, 0x00, 0xF1, 0x55, 0x60, 0x00, 0x61, 0x00, 0xF1, 0x65,
    ]);
    run(&mut c, 4);
    assert_eq!(c.get_memory_byte(0x300), 5);
    assert_eq!(c.get_memory_byte(0x301), 3);
    assert_eq!(c.get_memory_byte(0x302), 0);
    run(&mut c, 3);
    assert_eq!(c.get_register(0), 5);
    assert_eq!(c.get_register(1), 3);
}

#[test]
fn random_masked_with_zero_is_zero() {
    // Whatever byte the generator yields, the zero mask clears it.
    for _ in 0..32 {
        let mut c = boot(vec![0xC0, 0x00]);
        run(&mut c, 1);
        assert_eq!(c.get_register(0), 0);
    }
}

#[test]
fn random_stays_within_mask() {
    for _ in 0..32 {
        let mut c = boot(vec![0xC0, 0x0F]);
        run(&mut c, 1);
        assert_eq!(c.get_register(0) & 0xF0, 0);
    }
}

#[test]
fn unknown_opcode_is_reported_and_stepped_over() {
    for rom in [
        vec![0x0F, 0xFFu8], // 0-family, neither 00E0 nor 00EE
        vec![0x85, 0x58],   // 8-family, undefined sub-code
        vec![0x51, 0x21],   // 5XY1 is not defined
        vec![0xE0, 0x00],   // E-family, undefined sub-code
        vec![0xF0, 0xFF],   // F-family, undefined sub-code
    ] {
        let op = ((rom[0] as u16) << 8) | rom[1] as u16;
        let mut c = boot(rom);
        assert_eq!(c.run_cpu_cycle(), Ok(CycleEvent::UnknownOpcode(op)));
        assert_eq!(c.get_program_counter(), 0x202);
    }
}

#[test]
fn return_with_empty_stack_is_stack_underflow() {
    let mut c = boot(vec![0x00, 0xEE]);
    assert_eq!(c.run_cpu_cycle(), Err(Chip8Error::StackUnderflow));
}

#[test]
fn seventeenth_nested_call_is_stack_overflow() {
    // 0x200: call 0x200, forever.
    let mut c = boot(vec![0x22, 0x00]);
    for depth in 1..=16 {
        assert_eq!(c.run_cpu_cycle(), Ok(CycleEvent::Executed));
        assert_eq!(c.get_stack_depth(), depth);
    }
    assert_eq!(c.run_cpu_cycle(), Err(Chip8Error::StackOverflow));
    assert_eq!(c.get_stack_depth(), 16);
}

#[test]
fn fetch_outside_memory_is_out_of_range() {
    // Jump to 0xFFF: the next fetch needs bytes 0xFFF and 0x1000.
    let mut c = boot(vec![0x1F, 0xFF]);
    run(&mut c, 1);
    assert_eq!(c.run_cpu_cycle(), Err(Chip8Error::MemoryOutOfRange));
    assert_eq!(c.get_program_counter(), 0xFFF);
}

#[test]
fn bcd_near_top_of_memory() {
    // index = 0xFFD: the three digits still fit.
    let mut c = boot(vec![0xAF, 0xFD, 0x60, 0x07, 0xF0, 0x33]);
    run(&mut c, 3);
    assert_eq!(c.get_memory_byte(0xFFF), 7);
    // index = 0xFFE: the ones digit would fall outside memory.
    let mut c = boot(vec![0xAF, 0xFE, 0xF0, 0x33]);
    run(&mut c, 1);
    assert_eq!(c.run_cpu_cycle(), Err(Chip8Error::MemoryOutOfRange));
}

#[test]
fn block_store_out_of_range() {
    // index = 0xFFF: storing V0..=V1 would write past the last byte.
    let mut c = boot(vec![0xAF, 0xFF, 0xF1, 0x55]);
    run(&mut c, 1);
    assert_eq!(c.run_cpu_cycle(), Err(Chip8Error::MemoryOutOfRange));
    // Storing just V0 at 0xFFF fits exactly.
    let mut c = boot(vec![0x60, 0x2A, 0xAF, 0xFF, 0xF0, 0x55]);
    run(&mut c, 3);
    assert_eq!(c.get_memory_byte(0xFFF), 0x2A);
}

#[test]
fn wait_for_key_blocks_then_stores_lowest_pressed() {
    let mut c = boot(vec![0xF0, 0x0A]);
    // No key pressed: the program counter does not advance, cycle after
    // cycle.
    for _ in 0..3 {
        assert_eq!(c.run_cpu_cycle(), Ok(CycleEvent::Executed));
        assert_eq!(c.get_program_counter(), 0x200);
    }
    // Two keys pressed: the lowest index wins and the machine moves on.
    c.set_key(5, true);
    c.set_key(3, true);
    assert_eq!(c.run_cpu_cycle(), Ok(CycleEvent::Executed));
    assert_eq!(c.get_register(0), 3);
    assert_eq!(c.get_program_counter(), 0x202);
}

#[test]
fn skip_if_key_pressed() {
    // V0 = 5; skip when key 5 is pressed.
    let mut c = boot(vec![0x60, 0x05, 0xE0, 0x9E]);
    c.set_key(5, true);
    run(&mut c, 2);
    assert_eq!(c.get_program_counter(), 0x206);
    let mut c = boot(vec![0x60, 0x05, 0xE0, 0x9E]);
    run(&mut c, 2);
    assert_eq!(c.get_program_counter(), 0x204);
}

#[test]
fn skip_if_key_not_pressed() {
    let mut c = boot(vec![0x60, 0x05, 0xE0, 0xA1]);
    run(&mut c, 2);
    assert_eq!(c.get_program_counter(), 0x206);
    let mut c = boot(vec![0x60, 0x05, 0xE0, 0xA1]);
    c.set_key(5, true);
    run(&mut c, 2);
    assert_eq!(c.get_program_counter(), 0x204);
}
