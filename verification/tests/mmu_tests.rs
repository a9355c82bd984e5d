use chip8::Chip8Error;
use chip8::mmu::MMU;

#[test]
fn write_then_read_returns_value() {
    let mut mmu = MMU::new(4096);
    assert_eq!(mmu.write(100, 42), Ok(()));
    assert_eq!(mmu.read(100), Ok(42));
    assert_eq!(mmu.write(4095, 7), Ok(()));
    assert_eq!(mmu.read(4095), Ok(7));
    assert_eq!(mmu.write(0, 255), Ok(()));
    assert_eq!(mmu.read(0), Ok(255));
}

#[test]
fn read_out_of_bounds_fails() {
    let mmu = MMU::new(4096);
    assert_eq!(mmu.read(4096), Err(Chip8Error::OutOfBounds));
    assert_eq!(mmu.read(5000), Err(Chip8Error::OutOfBounds));
}

#[test]
fn write_out_of_bounds_fails() {
    let mut mmu = MMU::new(4096);
    assert_eq!(mmu.write(4096, 1), Err(Chip8Error::OutOfBounds));
    assert_eq!(mmu.write(usize::MAX, 1), Err(Chip8Error::OutOfBounds));
    assert_eq!(mmu.read(4095), Ok(0));
}

#[test]
fn read_short_is_big_endian() {
    let mut mmu = MMU::new(4096);
    mmu.write(0x200, 0x12).unwrap();
    mmu.write(0x201, 0x34).unwrap();
    assert_eq!(mmu.read_short(0x200), Ok(0x1234));
}

#[test]
fn read_short_out_of_bounds_fails() {
    let mmu = MMU::new(4096);
    assert_eq!(mmu.read_short(4095), Err(Chip8Error::OutOfBounds));
    assert_eq!(mmu.read_short(4096), Err(Chip8Error::OutOfBounds));
}

#[test]
fn write_block_stores_all_bytes_that_fit() {
    let mut mmu = MMU::new(4096);
    let count = mmu.write_to_mem(vec![1, 2, 3, 4], 0x300).unwrap();
    assert_eq!(count, 4);
    assert_eq!(mmu.read(0x300), Ok(1));
    assert_eq!(mmu.read(0x301), Ok(2));
    assert_eq!(mmu.read(0x302), Ok(3));
    assert_eq!(mmu.read(0x303), Ok(4));
    assert_eq!(mmu.read(0x304), Ok(0));
}

#[test]
fn write_block_truncates_at_capacity() {
    let mut mmu = MMU::new(16);
    let count = mmu.write_to_mem(vec![9; 10], 10).unwrap();
    assert_eq!(count, 6);
    for a in 10..16 {
        assert_eq!(mmu.read(a), Ok(9));
    }
    assert_eq!(mmu.read(9), Ok(0));
}

#[test]
fn write_block_out_of_range_offset_fails() {
    let mut mmu = MMU::new(16);
    assert_eq!(mmu.write_to_mem(vec![1, 2], 16), Err(Chip8Error::OutOfBounds));
    assert_eq!(mmu.write_to_mem(vec![1, 2], 100), Err(Chip8Error::OutOfBounds));
    for a in 0..16 {
        assert_eq!(mmu.read(a), Ok(0));
    }
}

#[test]
fn pixel_accessors_reach_the_framebuffer() {
    let mut mmu = MMU::new(4096);
    assert!(!mmu.fb_needs_refresh());
    assert_eq!(mmu.fb_get(5, 3), 0);
    mmu.fb_set(5, 3, 1);
    assert_eq!(mmu.fb_get(5, 3), 1);
    assert!(mmu.fb_needs_refresh());
    let data = mmu.fb_get_data();
    assert_eq!(data.len(), 2048);
    assert_eq!(data[3 * 64 + 5], 1);
}

#[test]
fn fb_clear_zeroes_every_pixel() {
    let mut mmu = MMU::new(4096);
    mmu.fb_set(0, 0, 1);
    mmu.fb_set(63, 31, 1);
    mmu.fb_clear();
    assert!(mmu.fb_needs_refresh());
    assert!(mmu.fb_get_data().iter().all(|&p| p == 0));
}

#[test]
fn capacity_reports_the_address_space() {
    let mmu = MMU::new(4096);
    assert_eq!(mmu.capacity(), 4096);
    let small = MMU::new(16);
    assert_eq!(small.capacity(), 16);
}
