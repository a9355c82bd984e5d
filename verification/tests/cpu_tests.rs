use chip8::Chip8Error;
use chip8::cpu::CPU;
use chip8::mmu::MMU;

fn setup(program: &[u8]) -> (CPU, MMU) {
    let mut mmu = MMU::new(4096);
    mmu.write_to_mem(program.to_vec(), 0x200).unwrap();
    (CPU::new(0x200), mmu)
}

#[test]
fn clear_screen_zeroes_frame_and_sets_dirty() {
    let (mut cpu, mut mmu) = setup(&[0x00, 0xE0]);
    mmu.fb_set(10, 10, 1);
    assert_eq!(cpu.cycle(&mut mmu), Ok(()));
    assert!(mmu.fb_get_data().iter().all(|&p| p == 0));
    assert!(mmu.fb_needs_refresh());
    assert_eq!(cpu.pc(), 0x202);
}

#[test]
fn step_on_fresh_machine_clears_screen() {
    // Load [0x00, 0xE0] at 0x200, pc starts at 0x200, step once.
    let (mut cpu, mut mmu) = setup(&[0x00, 0xE0]);
    assert_eq!(cpu.cycle(&mut mmu), Ok(()));
    assert!(mmu.fb_get_data().iter().all(|&p| p == 0));
    assert!(mmu.fb_needs_refresh());
    assert_eq!(cpu.pc(), 0x202);
}

#[test]
fn jump_sets_pc_exactly() {
    let (mut cpu, mut mmu) = setup(&[0x12, 0x34]);
    assert_eq!(cpu.cycle(&mut mmu), Ok(()));
    assert_eq!(cpu.pc(), 0x234);
}

#[test]
fn call_then_return_resumes_after_call() {
    let (mut cpu, mut mmu) = setup(&[0x23, 0x00]);
    mmu.write_to_mem(vec![0x00, 0xEE], 0x300).unwrap();
    assert_eq!(cpu.cycle(&mut mmu), Ok(()));
    assert_eq!(cpu.pc(), 0x300);
    assert_eq!(cpu.sp(), 1);
    assert_eq!(cpu.cycle(&mut mmu), Ok(()));
    assert_eq!(cpu.pc(), 0x202);
    assert_eq!(cpu.sp(), 0);
}

#[test]
fn skip_if_equal_immediate() {
    let (mut cpu, mut mmu) = setup(&[0x30, 0x00]);
    assert_eq!(cpu.cycle(&mut mmu), Ok(()));
    assert_eq!(cpu.pc(), 0x204);
    let (mut cpu, mut mmu) = setup(&[0x30, 0x01]);
    assert_eq!(cpu.cycle(&mut mmu), Ok(()));
    assert_eq!(cpu.pc(), 0x202);
}

#[test]
fn skip_if_not_equal_immediate() {
    let (mut cpu, mut mmu) = setup(&[0x40, 0x01]);
    assert_eq!(cpu.cycle(&mut mmu), Ok(()));
    assert_eq!(cpu.pc(), 0x204);
    let (mut cpu, mut mmu) = setup(&[0x40, 0x00]);
    assert_eq!(cpu.cycle(&mut mmu), Ok(()));
    assert_eq!(cpu.pc(), 0x202);
}

#[test]
fn skip_if_registers_equal_and_not_equal() {
    // reg0 = 1, then 5XY0 with equal registers 1 and 2 skips.
    let (mut cpu, mut mmu) = setup(&[0x60, 0x01, 0x51, 0x20]);
    cpu.cycle(&mut mmu).unwrap();
    cpu.cycle(&mut mmu).unwrap();
    assert_eq!(cpu.pc(), 0x206);
    // 9XY0 with reg0 = 1 != reg1 = 0 skips.
    let (mut cpu, mut mmu) = setup(&[0x60, 0x01, 0x90, 0x10]);
    cpu.cycle(&mut mmu).unwrap();
    cpu.cycle(&mut mmu).unwrap();
    assert_eq!(cpu.pc(), 0x206);
    // 5XY0 with unequal registers falls through.
    let (mut cpu, mut mmu) = setup(&[0x60, 0x01, 0x50, 0x10]);
    cpu.cycle(&mut mmu).unwrap();
    cpu.cycle(&mut mmu).unwrap();
    assert_eq!(cpu.pc(), 0x204);
}

#[test]
fn load_immediate() {
    let (mut cpu, mut mmu) = setup(&[0x6A, 0x42]);
    assert_eq!(cpu.cycle(&mut mmu), Ok(()));
    assert_eq!(cpu.reg(0xA), 0x42);
}

#[test]
fn add_immediate_wraps_without_flag() {
    // reg0 = 0xFF, add 0x02: wraps to 0x01, flag register untouched.
    let (mut cpu, mut mmu) = setup(&[0x60, 0xFF, 0x70, 0x02]);
    cpu.cycle(&mut mmu).unwrap();
    cpu.cycle(&mut mmu).unwrap();
    assert_eq!(cpu.reg(0), 0x01);
    assert_eq!(cpu.reg(0xF), 0);
    assert_eq!(cpu.pc(), 0x204);
}

#[test]
fn two_adds_accumulate() {
    // Load [0x60, 0x0A, 0x70, 0x05], step twice: reg0 = 0x0F, pc = 0x204.
    let (mut cpu, mut mmu) = setup(&[0x60, 0x0A, 0x70, 0x05]);
    cpu.cycle(&mut mmu).unwrap();
    cpu.cycle(&mut mmu).unwrap();
    assert_eq!(cpu.reg(0), 0x0F);
    assert_eq!(cpu.pc(), 0x204);
}

#[test]
fn alu_assign_or_and_xor() {
    let (mut cpu, mut mmu) = setup(&[0x60, 0x0C, 0x61, 0x0A, 0x80, 0x10]);
    for _ in 0..3 {
        cpu.cycle(&mut mmu).unwrap();
    }
    assert_eq!(cpu.reg(0), 0x0A);
    let (mut cpu, mut mmu) = setup(&[0x60, 0x0C, 0x61, 0x0A, 0x80, 0x11]);
    for _ in 0..3 {
        cpu.cycle(&mut mmu).unwrap();
    }
    assert_eq!(cpu.reg(0), 0x0E);
    let (mut cpu, mut mmu) = setup(&[0x60, 0x0C, 0x61, 0x0A, 0x80, 0x12]);
    for _ in 0..3 {
        cpu.cycle(&mut mmu).unwrap();
    }
    assert_eq!(cpu.reg(0), 0x08);
    let (mut cpu, mut mmu) = setup(&[0x60, 0x0C, 0x61, 0x0A, 0x80, 0x13]);
    for _ in 0..3 {
        cpu.cycle(&mut mmu).unwrap();
    }
    assert_eq!(cpu.reg(0), 0x06);
}

#[test]
fn add_registers_sets_carry_on_overflow() {
    let (mut cpu, mut mmu) = setup(&[0x60, 0xFF, 0x61, 0x02, 0x80, 0x14]);
    for _ in 0..3 {
        cpu.cycle(&mut mmu).unwrap();
    }
    assert_eq!(cpu.reg(0), 0x01);
    assert_eq!(cpu.reg(0xF), 1);
}

#[test]
fn add_registers_clears_carry_without_overflow() {
    let (mut cpu, mut mmu) = setup(&[0x60, 0x03, 0x61, 0x02, 0x80, 0x14]);
    for _ in 0..3 {
        cpu.cycle(&mut mmu).unwrap();
    }
    assert_eq!(cpu.reg(0), 0x05);
    assert_eq!(cpu.reg(0xF), 0);
}

#[test]
fn subtract_sets_not_borrow_flag() {
    // 8XY5: reg0 = 5 - 3 = 2, flag 1 (no borrow).
    let (mut cpu, mut mmu) = setup(&[0x60, 0x05, 0x61, 0x03, 0x80, 0x15]);
    for _ in 0..3 {
        cpu.cycle(&mut mmu).unwrap();
    }
    assert_eq!(cpu.reg(0), 0x02);
    assert_eq!(cpu.reg(0xF), 1);
    // 8XY5: reg0 = 3 - 5 wraps to 0xFE, flag 0.
    let (mut cpu, mut mmu) = setup(&[0x60, 0x03, 0x61, 0x05, 0x80, 0x15]);
    for _ in 0..3 {
        cpu.cycle(&mut mmu).unwrap();
    }
    assert_eq!(cpu.reg(0), 0xFE);
    assert_eq!(cpu.reg(0xF), 0);
}

#[test]
fn reverse_subtract_sets_not_borrow_flag() {
    // 8XY7: reg0 = reg1 - reg0 = 5 - 3 = 2, flag 1.
    let (mut cpu, mut mmu) = setup(&[0x60, 0x03, 0x61, 0x05, 0x80, 0x17]);
    for _ in 0..3 {
        cpu.cycle(&mut mmu).unwrap();
    }
    assert_eq!(cpu.reg(0), 0x02);
    assert_eq!(cpu.reg(0xF), 1);
}

#[test]
fn shift_right_captures_low_bit_first() {
    let (mut cpu, mut mmu) = setup(&[0x60, 0x05, 0x80, 0x06]);
    cpu.cycle(&mut mmu).unwrap();
    cpu.cycle(&mut mmu).unwrap();
    assert_eq!(cpu.reg(0xF), 1);
    assert_eq!(cpu.reg(0), 0x02);
}

#[test]
fn shift_left_captures_high_bit_first() {
    let (mut cpu, mut mmu) = setup(&[0x60, 0x81, 0x80, 0x0E]);
    cpu.cycle(&mut mmu).unwrap();
    cpu.cycle(&mut mmu).unwrap();
    assert_eq!(cpu.reg(0xF), 1);
    assert_eq!(cpu.reg(0), 0x02);
}

#[test]
fn load_address_register() {
    let (mut cpu, mut mmu) = setup(&[0xA1, 0x23]);
    assert_eq!(cpu.cycle(&mut mmu), Ok(()));
    assert_eq!(cpu.index_reg(), 0x123);
}

#[test]
fn draw_sets_pixel_then_collides() {
    // reg0 = reg1 = 0, i = 0x300 (sprite byte 0x80), draw twice at (0, 0).
    let (mut cpu, mut mmu) = setup(&[0x60, 0x00, 0x61, 0x00, 0xA3, 0x00, 0xD0, 0x11, 0xD0, 0x11]);
    mmu.write(0x300, 0x80).unwrap();
    for _ in 0..4 {
        cpu.cycle(&mut mmu).unwrap();
    }
    assert_eq!(mmu.fb_get(0, 0), 1);
    assert_eq!(cpu.reg(0xF), 0);
    assert!(mmu.fb_needs_refresh());
    // The second draw XORs the same bit onto the set pixel.
    cpu.cycle(&mut mmu).unwrap();
    assert_eq!(mmu.fb_get(0, 0), 0);
    assert_eq!(cpu.reg(0xF), 1);
}

#[test]
fn draw_wraps_coordinates() {
    // reg0 = 62: an 8-bit row starting at x = 62 wraps to x = 0..5.
    let (mut cpu, mut mmu) = setup(&[0x60, 0x3E, 0x61, 0x00, 0xA3, 0x00, 0xD0, 0x11]);
    mmu.write(0x300, 0xFF).unwrap();
    for _ in 0..4 {
        cpu.cycle(&mut mmu).unwrap();
    }
    assert_eq!(mmu.fb_get(62, 0), 1);
    assert_eq!(mmu.fb_get(63, 0), 1);
    assert_eq!(mmu.fb_get(0, 0), 1);
    assert_eq!(mmu.fb_get(5, 0), 1);
    assert_eq!(mmu.fb_get(6, 0), 0);
    assert_eq!(cpu.reg(0xF), 0);
}

#[test]
fn draw_aborts_on_out_of_bounds_sprite_row_keeping_drawn_rows() {
    // i = 0xFFF: row 0 reads the last byte, row 1 would read 0x1000.
    let (mut cpu, mut mmu) = setup(&[0x60, 0x00, 0x61, 0x00, 0xAF, 0xFF, 0xD0, 0x12]);
    mmu.write(0xFFF, 0x80).unwrap();
    for _ in 0..3 {
        cpu.cycle(&mut mmu).unwrap();
    }
    assert_eq!(cpu.cycle(&mut mmu), Ok(()));
    assert_eq!(mmu.fb_get(0, 0), 1);
    assert_eq!(cpu.pc(), 0x208);
}

#[test]
fn bcd_writes_three_digits() {
    // reg0 = 234: memory at i, i+1, i+2 becomes 2, 3, 4.
    let (mut cpu, mut mmu) = setup(&[0x60, 0xEA, 0xA3, 0x00, 0xF0, 0x33]);
    for _ in 0..3 {
        cpu.cycle(&mut mmu).unwrap();
    }
    assert_eq!(mmu.read(0x300), Ok(2));
    assert_eq!(mmu.read(0x301), Ok(3));
    assert_eq!(mmu.read(0x302), Ok(4));
}

#[test]
fn store_then_load_round_trips_registers() {
    // reg0..reg2 = 0x11, 0x22, 0x33; dump at 0x300; zero them; load back.
    let (mut cpu, mut mmu) = setup(&[
        0x60, 0x11, 0x61, 0x22, 0x62, 0x33, 0xA3, 0x00, 0xF2, 0x55, 0x60, 0x00, 0x61, 0x00, 0x62,
        0x00, 0xF2, 0x65,
    ]);
    for _ in 0..9 {
        cpu.cycle(&mut mmu).unwrap();
    }
    assert_eq!(cpu.reg(0), 0x11);
    assert_eq!(cpu.reg(1), 0x22);
    assert_eq!(cpu.reg(2), 0x33);
    assert_eq!(mmu.read(0x300), Ok(0x11));
    assert_eq!(mmu.read(0x301), Ok(0x22));
    assert_eq!(mmu.read(0x302), Ok(0x33));
    // The dump is inclusive of X and stops there.
    assert_eq!(mmu.read(0x303), Ok(0));
}

#[test]
fn load_registers_leaves_higher_registers_alone() {
    // reg3 = 0x77 stays while reg0..reg1 are loaded from memory.
    let (mut cpu, mut mmu) = setup(&[0x63, 0x77, 0xA3, 0x00, 0xF1, 0x65]);
    mmu.write(0x300, 0x0A).unwrap();
    mmu.write(0x301, 0x0B).unwrap();
    for _ in 0..3 {
        cpu.cycle(&mut mmu).unwrap();
    }
    assert_eq!(cpu.reg(0), 0x0A);
    assert_eq!(cpu.reg(1), 0x0B);
    assert_eq!(cpu.reg(3), 0x77);
}

#[test]
fn unimplemented_opcodes_fail_loudly() {
    let (mut cpu, mut mmu) = setup(&[0xB0, 0x00]);
    assert_eq!(cpu.cycle(&mut mmu), Err(Chip8Error::UnimplementedOpcode));
    let (mut cpu, mut mmu) = setup(&[0x80, 0x08]);
    assert_eq!(cpu.cycle(&mut mmu), Err(Chip8Error::UnimplementedOpcode));
    let (mut cpu, mut mmu) = setup(&[0xF0, 0x01]);
    assert_eq!(cpu.cycle(&mut mmu), Err(Chip8Error::UnimplementedOpcode));
    let (mut cpu, mut mmu) = setup(&[0x00, 0x00]);
    assert_eq!(cpu.cycle(&mut mmu), Err(Chip8Error::UnimplementedOpcode));
}

#[test]
fn return_with_empty_stack_underflows() {
    let (mut cpu, mut mmu) = setup(&[0x00, 0xEE]);
    assert_eq!(cpu.cycle(&mut mmu), Err(Chip8Error::StackUnderflow));
    assert_eq!(cpu.pc(), 0x202);
}

#[test]
fn seventeenth_nested_call_overflows() {
    // 0x2200 at 0x200 calls itself: each step pushes one return address.
    let (mut cpu, mut mmu) = setup(&[0x22, 0x00]);
    for _ in 0..16 {
        assert_eq!(cpu.cycle(&mut mmu), Ok(()));
    }
    assert_eq!(cpu.sp(), 16);
    assert_eq!(cpu.cycle(&mut mmu), Err(Chip8Error::StackOverflow));
}

#[test]
fn fetch_past_capacity_fails() {
    let mut mmu = MMU::new(4096);
    let mut cpu = CPU::new(4095);
    assert_eq!(cpu.cycle(&mut mmu), Err(Chip8Error::OutOfBounds));
    assert_eq!(cpu.pc(), 4095);
}

#[test]
fn bcd_out_of_bounds_is_atomic() {
    let (mut cpu, mut mmu) = setup(&[0x60, 0xEA, 0xAF, 0xFE, 0xF0, 0x33]);
    cpu.cycle(&mut mmu).unwrap();
    cpu.cycle(&mut mmu).unwrap();
    assert_eq!(cpu.cycle(&mut mmu), Err(Chip8Error::OutOfBounds));
    assert_eq!(mmu.read(0xFFE), Ok(0));
    assert_eq!(mmu.read(0xFFF), Ok(0));
}

#[test]
fn register_dump_truncates_at_capacity() {
    // i = 0xFFE: only registers 0 and 1 fit before the end of memory.
    let (mut cpu, mut mmu) = setup(&[0x60, 0x11, 0x61, 0x22, 0x62, 0x33, 0xAF, 0xFE, 0xF2, 0x55]);
    for _ in 0..5 {
        cpu.cycle(&mut mmu).unwrap();
    }
    assert_eq!(mmu.read(0xFFE), Ok(0x11));
    assert_eq!(mmu.read(0xFFF), Ok(0x22));
}

#[test]
fn fresh_cpu_state() {
    let cpu = CPU::new(0x200);
    assert_eq!(cpu.pc(), 0x200);
    assert_eq!(cpu.sp(), 0);
    assert_eq!(cpu.index_reg(), 0);
    for x in 0..16 {
        assert_eq!(cpu.reg(x), 0);
    }
}
