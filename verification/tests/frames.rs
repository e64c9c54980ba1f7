use chip8_emulator::cpu::{Chip8, Chip8Error};
use chip8_emulator::frame::{render, DARK, LIT};

fn machine_with(program: &[u8]) -> Chip8 {
    let mut c = Chip8::new();
    c.load_rom(program).unwrap();
    c
}

#[test]
fn frame_runs_speed_instructions_then_ticks() {
    // V0 += 1, jump back: an endless counting loop
    let mut c = machine_with(&[0x70, 0x01, 0x12, 0x00]);
    c.delay_timer = 5;
    let errors = c.run_frame_with_random(&[false; 16], 10, &vec![0; 10]);
    assert!(errors.is_empty());
    assert_eq!(c.v[0], 5);
    assert_eq!(c.delay_timer, 4);
    assert_eq!(c.pc, 0x200);
}

#[test]
fn frame_sets_keys() {
    let mut c = machine_with(&[0x12, 0x00]);
    let mut keys = [false; 16];
    keys[4] = true;
    c.run_frame(&keys, 1);
    assert!(c.keypad.is_pressed(4));
    assert!(!c.keypad.is_pressed(5));
}

#[test]
fn frame_ends_draw_wait() {
    // draw, then V0 = 9
    let mut c = machine_with(&[0xD0, 0x05, 0x60, 0x09]);
    c.i = 0x50;
    c.run_frame(&[false; 16], 10);
    assert_eq!(c.v[0], 0);
    assert!(!c.waiting_for_vblank);
    assert_eq!(c.pc, 0x202);
    c.run_frame(&[false; 16], 1);
    assert_eq!(c.v[0], 9);
}

#[test]
fn frame_collects_errors_and_goes_on() {
    let mut c = machine_with(&[0x00, 0xEE, 0xFF, 0xFF, 0x61, 0x02]);
    let errors = c.run_frame_with_random(&[false; 16], 3, &vec![0; 3]);
    assert_eq!(
        errors,
        vec![Chip8Error::StackUnderflow, Chip8Error::InvalidOpcode(0xFFFF)]
    );
    assert_eq!(c.v[1], 2);
}

#[test]
fn frame_uses_random_bytes_in_order() {
    let mut c = machine_with(&[0xC0, 0xFF, 0xC1, 0x0F]);
    c.run_frame_with_random(&[false; 16], 2, &vec![0x12, 0x34]);
    assert_eq!(c.v[0], 0x12);
    assert_eq!(c.v[1], 0x04);
}

#[test]
fn render_scales_pixels() {
    let mut pixels = [false; 2048];
    pixels[0] = true;
    pixels[64 + 1] = true;
    let buf = render(&pixels, 2);
    assert_eq!(buf.len(), 2048 * 4);
    let width = 128;
    assert_eq!(buf[0], LIT);
    assert_eq!(buf[1], LIT);
    assert_eq!(buf[width], LIT);
    assert_eq!(buf[width + 1], LIT);
    assert_eq!(buf[2], DARK);
    assert_eq!(buf[2 * width + 2], LIT);
    assert_eq!(buf[3 * width + 3], LIT);
    assert_eq!(buf[3 * width + 4], DARK);
    assert_eq!(buf.iter().filter(|&&c| c == LIT).count(), 8);
}

#[test]
fn render_scale_one_is_the_screen() {
    let mut pixels = [false; 2048];
    pixels[2047] = true;
    let buf = render(&pixels, 1);
    assert_eq!(buf.len(), 2048);
    assert_eq!(buf[2047], 0xFFFFFF);
    assert_eq!(buf[2046], 0);
}
