use chip8::emulator::Emulator;
use chip8::rom::ROM;

#[test]
fn rom_keeps_its_bytes_and_size() {
    let rom = ROM::new("game.ch8", vec![0x12, 0x34, 0x56]);
    assert_eq!(rom.path, "game.ch8");
    assert_eq!(rom.size, 3);
    assert_eq!(rom.get_data(), vec![0x12, 0x34, 0x56]);
}

#[test]
fn fresh_emulator_has_a_clean_frame() {
    let rom = ROM::new("empty.ch8", vec![]);
    let emu = Emulator::new(&rom);
    assert!(!emu.fb_needs_refresh());
    let frame = emu.get_fb_data();
    assert_eq!(frame.len(), 2048);
    assert!(frame.iter().all(|&p| p == 0));
}

#[test]
fn cycle_does_nothing_until_started() {
    let rom = ROM::new("clear.ch8", vec![0x00, 0xE0]);
    let mut emu = Emulator::new(&rom);
    assert_eq!(emu.cycle(), Ok(()));
    assert!(!emu.fb_needs_refresh());
}

#[test]
fn started_emulator_executes_the_program() {
    let rom = ROM::new("clear.ch8", vec![0x00, 0xE0]);
    let mut emu = Emulator::new(&rom);
    emu.start();
    assert_eq!(emu.cycle(), Ok(()));
    assert!(emu.fb_needs_refresh());
    assert!(emu.get_fb_data().iter().all(|&p| p == 0));
}

#[test]
fn stop_pauses_execution() {
    let rom = ROM::new("clear.ch8", vec![0x00, 0xE0]);
    let mut emu = Emulator::new(&rom);
    emu.start();
    emu.stop();
    assert_eq!(emu.cycle(), Ok(()));
    assert!(!emu.fb_needs_refresh());
}

#[test]
fn program_draws_through_the_emulator() {
    // reg0 = reg1 = 0; i = 0x208 (the sprite byte at the end of the image);
    // draw one row at (0, 0).
    let rom = ROM::new(
        "draw.ch8",
        vec![0x60, 0x00, 0x61, 0x00, 0xA2, 0x08, 0xD0, 0x11, 0x80],
    );
    let mut emu = Emulator::new(&rom);
    emu.start();
    for _ in 0..4 {
        assert_eq!(emu.cycle(), Ok(()));
    }
    let frame = emu.get_fb_data();
    assert_eq!(frame[0], 1);
    assert_eq!(frame.iter().filter(|&&p| p == 1).count(), 1);
    assert!(emu.fb_needs_refresh());
}

#[test]
fn font_glyph_is_loaded_and_drawable() {
    // i = 0x50 points at the glyph for 0; drawing its first row sets the
    // pattern 11110000 at the top left corner.
    let rom = ROM::new(
        "font.ch8",
        vec![0x60, 0x00, 0x61, 0x00, 0xA0, 0x50, 0xD0, 0x11],
    );
    let mut emu = Emulator::new(&rom);
    emu.start();
    for _ in 0..4 {
        assert_eq!(emu.cycle(), Ok(()));
    }
    let frame = emu.get_fb_data();
    assert_eq!(&frame[0..8], &[1, 1, 1, 1, 0, 0, 0, 0]);
}
