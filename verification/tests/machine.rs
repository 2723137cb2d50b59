use chip8::Chip8;
use chip8::Chip8Error;
use chip8::Keypad;

/// A machine with `rom` loaded, ready to run at 0x200.
fn boot(rom: Vec<u8>) -> Chip8 {
    let mut c = Chip8::new();
    c.load_rom(rom).unwrap();
    c
}

#[test]
fn new_machine_initial_state() {
    let c = Chip8::new();
    assert_eq!(c.get_program_counter(), 0x200);
    assert_eq!(c.get_index_register(), 0);
    assert_eq!(c.get_delay_timer(), 0);
    assert_eq!(c.get_sound_timer(), 0);
    assert_eq!(c.get_stack_depth(), 0);
    assert!(!c.update_screen);
    for x in 0..16 {
        assert_eq!(c.get_register(x), 0);
    }
    let buf = c.get_display_buffer();
    assert_eq!(buf.len(), 64 * 32);
    assert!(buf.iter().all(|cell| !cell));
}

#[test]
fn font_table_loaded_at_zero() {
    let c = Chip8::new();
    // Glyph 0 starts with 0xF0; glyph F ends with 0x80; beyond the 80 font
    // bytes memory is zero.
    assert_eq!(c.get_memory_byte(0), 0xF0);
    assert_eq!(c.get_memory_byte(4), 0xF0);
    assert_eq!(c.get_memory_byte(79), 0x80);
    assert_eq!(c.get_memory_byte(80), 0);
    assert_eq!(c.get_memory_byte(0x1FF), 0);
}

#[test]
fn load_rom_copies_bytes_verbatim() {
    let c = boot(vec![0x12, 0x34, 0x56]);
    assert_eq!(c.get_memory_byte(0x200), 0x12);
    assert_eq!(c.get_memory_byte(0x201), 0x34);
    assert_eq!(c.get_memory_byte(0x202), 0x56);
    assert_eq!(c.get_memory_byte(0x203), 0x00);
}

#[test]
fn load_rom_rejects_oversized_program() {
    let mut c = Chip8::new();
    assert_eq!(c.load_rom(vec![0u8; 3585]), Err(Chip8Error::RomTooLarge));
    // The rejected program wrote nothing.
    assert_eq!(c.get_memory_byte(0x200), 0);
    // The largest program that fits is accepted.
    assert_eq!(c.load_rom(vec![0xAB; 3584]), Ok(()));
    assert_eq!(c.get_memory_byte(0xFFF), 0xAB);
}

#[test]
fn timers_decrement_once_per_tick_and_saturate() {
    // V0 = 2, delay = V0, sound = V0.
    let mut c = boot(vec![0x60, 0x02, 0xF0, 0x15, 0xF0, 0x18]);
    for _ in 0..3 {
        c.run_cpu_cycle().unwrap();
    }
    assert_eq!(c.get_delay_timer(), 2);
    assert_eq!(c.get_sound_timer(), 2);
    c.update_timers();
    assert_eq!(c.get_delay_timer(), 1);
    assert_eq!(c.get_sound_timer(), 1);
    c.update_timers();
    c.update_timers();
    c.update_timers();
    assert_eq!(c.get_delay_timer(), 0);
    assert_eq!(c.get_sound_timer(), 0);
}

#[test]
fn read_delay_timer_into_register() {
    // V0 = 7, delay = V0, then V5 = delay.
    let mut c = boot(vec![0x60, 0x07, 0xF0, 0x15, 0xF5, 0x07]);
    for _ in 0..3 {
        c.run_cpu_cycle().unwrap();
    }
    assert_eq!(c.get_register(5), 7);
}

#[test]
fn keypad_tracks_key_events() {
    let mut k = Keypad::new();
    for i in 0..16 {
        assert!(!k.is_pressed(i));
    }
    k.set_key(0xA, true);
    assert!(k.is_pressed(0xA));
    assert!(!k.is_pressed(0x9));
    k.set_key(0xA, false);
    assert!(!k.is_pressed(0xA));
}

#[test]
fn register_write_read_roundtrip() {
    // Every register, every byte value: write then read yields the value.
    for x in 0..16u8 {
        for val in 0..=255u8 {
            let mut c = boot(vec![0x60 | x, val]);
            c.run_cpu_cycle().unwrap();
            assert_eq!(c.get_register(x), val);
        }
    }
}
