use chip8::Chip8;
use chip8::Chip8Error;
use chip8::CycleEvent;

/// A machine with `rom` loaded, ready to run at 0x200.
fn boot(rom: Vec<u8>) -> Chip8 {
    let mut c = Chip8::new();
    c.load_rom(rom).unwrap();
    c
}

/// Run `n` cycles, requiring each to succeed.
fn run(c: &mut Chip8, n: usize) {
    for _ in 0..n {
        c.run_cpu_cycle().unwrap();
    }
}

/// The cell at column `x`, row `y` of the framebuffer.
fn cell(c: &Chip8, x: usize, y: usize) -> bool {
    c.get_display_buffer()[y * 64 + x]
}

#[test]
fn draw_lights_sprite_pixels_and_raises_dirty() {
    // index = 0x206 (the 0xF0 byte below); draw 1 row at (V0, V1) = (0, 0).
    let mut c = boot(vec![0xA2, 0x06, 0xD0, 0x11, 0x00, 0x00, 0xF0]);
    run(&mut c, 2);
    for x in 0..4 {
        assert!(cell(&c, x, 0));
    }
    for x in 4..9 {
        assert!(!cell(&c, x, 0));
    }
    assert_eq!(c.get_register(0xF), 0);
    assert!(c.update_screen);
}

#[test]
fn drawing_same_sprite_twice_erases_and_flags_collision() {
    // Draw the row byte 0b11110000 twice at the same coordinates.
    let mut c = boot(vec![0xA2, 0x08, 0xD0, 0x11, 0xD0, 0x11, 0x00, 0x00, 0xF0]);
    run(&mut c, 2);
    assert_eq!(c.get_register(0xF), 0);
    run(&mut c, 1);
    // Every affected cell is off again and the collision flag is set.
    for x in 0..9 {
        assert!(!cell(&c, x, 0));
    }
    assert_eq!(c.get_register(0xF), 1);
}

#[test]
fn draw_wraps_at_screen_edges() {
    // (V0, V1) = (62, 31): the row wraps to the left edge of the same row.
    let mut c = boot(vec![
        0x60, 0x3E, 0x61, 0x1F, 0xA2, 0x08, 0xD0, 0x11, 0xF0,
    ]);
    run(&mut c, 4);
    assert!(cell(&c, 62, 31));
    assert!(cell(&c, 63, 31));
    assert!(cell(&c, 0, 31));
    assert!(cell(&c, 1, 31));
    assert!(!cell(&c, 2, 31));
}

#[test]
fn draw_two_row_sprite() {
    // index = 0x208: rows 0xC0, 0x40 drawn at (0, 0).
    let mut c = boot(vec![0xA2, 0x06, 0xD0, 0x12, 0x00, 0x00, 0xC0, 0x40]);
    run(&mut c, 2);
    assert!(cell(&c, 0, 0));
    assert!(cell(&c, 1, 0));
    assert!(!cell(&c, 2, 0));
    assert!(!cell(&c, 0, 1));
    assert!(cell(&c, 1, 1));
}

#[test]
fn partial_overlap_sets_collision_and_xors() {
    // Draw 0xF0 at (0, 0), then 0b00111100 (0x3C) at the same row: columns
    // 2 and 3 collide and toggle off, 4 and 5 light up.
    let mut c = boot(vec![
        0xA2, 0x08, 0xD0, 0x11, 0xA2, 0x09, 0xD0, 0x11, 0xF0, 0x3C,
    ]);
    run(&mut c, 4);
    assert!(cell(&c, 0, 0));
    assert!(cell(&c, 1, 0));
    assert!(!cell(&c, 2, 0));
    assert!(!cell(&c, 3, 0));
    assert!(cell(&c, 4, 0));
    assert!(cell(&c, 5, 0));
    assert_eq!(c.get_register(0xF), 1);
}

#[test]
fn sprite_read_outside_memory_is_out_of_range() {
    // index = 0xFFF: a 1-row sprite still fits, 2 rows do not.
    let mut c = boot(vec![0xAF, 0xFF, 0xD0, 0x11]);
    run(&mut c, 1);
    assert_eq!(c.run_cpu_cycle(), Ok(CycleEvent::Executed));
    let mut c = boot(vec![0xAF, 0xFF, 0xD0, 0x12]);
    run(&mut c, 1);
    assert_eq!(c.run_cpu_cycle(), Err(Chip8Error::MemoryOutOfRange));
}

#[test]
fn clear_screen_turns_every_cell_off() {
    // Draw something, then clear.
    let mut c = boot(vec![0xA2, 0x06, 0xD0, 0x11, 0x00, 0xE0, 0xF0]);
    run(&mut c, 2);
    assert!(cell(&c, 0, 0));
    c.update_screen = false;
    run(&mut c, 1);
    assert!(c.get_display_buffer().iter().all(|p| !p));
    assert!(c.update_screen);
}

#[test]
fn draw_with_flag_register_as_coordinate_uses_reset_flag() {
    // VF = 3 beforehand; the draw resets VF before reading coordinates, so
    // the sprite lands at column 0, and VF afterwards reports the collision
    // state (none here).
    let mut c = boot(vec![0x6F, 0x03, 0xA2, 0x08, 0xDF, 0x11, 0x00, 0x00, 0x80]);
    run(&mut c, 3);
    assert!(cell(&c, 0, 0));
    assert!(!cell(&c, 3, 0));
    assert_eq!(c.get_register(0xF), 0);
}
