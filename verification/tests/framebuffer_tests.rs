use chip8::framebuffer::Framebuffer;

#[test]
fn new_grid_is_clean_and_off() {
    let fb = Framebuffer::new(64, 32);
    assert_eq!(fb.width, 64);
    assert_eq!(fb.height, 32);
    assert!(!fb.needs_refresh);
    let data = fb.get_data();
    assert_eq!(data.len(), 2048);
    assert!(data.iter().all(|&p| p == 0));
}

#[test]
fn set_writes_row_major_and_marks_dirty() {
    let mut fb = Framebuffer::new(64, 32);
    fb.set(3, 2, 1);
    assert!(fb.needs_refresh);
    assert_eq!(fb.get(3, 2), 1);
    assert_eq!(fb.get_data()[2 * 64 + 3], 1);
    assert_eq!(fb.get(2, 3), 0);
}

#[test]
fn clear_turns_every_pixel_off() {
    let mut fb = Framebuffer::new(64, 32);
    fb.set(0, 0, 1);
    fb.set(63, 31, 1);
    fb.clear();
    assert!(fb.needs_refresh);
    assert!(fb.get_data().iter().all(|&p| p == 0));
    assert_eq!(fb.get_data().len(), 2048);
}

#[test]
fn is_dirty_tracks_the_flag() {
    let mut fb = Framebuffer::new(8, 8);
    assert!(!fb.is_dirty());
    fb.set(1, 1, 1);
    assert!(fb.is_dirty());
}
