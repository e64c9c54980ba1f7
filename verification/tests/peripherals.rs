use chip8_emulator::display::{Display, HEIGHT, WIDTH};
use chip8_emulator::keypad::Keypad;

#[test]
fn screen_dimensions() {
    assert_eq!(WIDTH * HEIGHT, 2048);
    let d = Display::new();
    assert_eq!(d.pixels.len(), WIDTH * HEIGHT);
}

#[test]
fn new_display_is_blank() {
    let d = Display::new();
    assert!(d.pixels.iter().all(|&p| !p));
    let d = Display::default();
    assert!(d.pixels.iter().all(|&p| !p));
}

#[test]
fn clear_turns_every_pixel_off() {
    let mut d = Display::new();
    d.pixels[0] = true;
    d.pixels[2047] = true;
    d.clear();
    assert!(d.pixels.iter().all(|&p| !p));
}

#[test]
fn keypad_set_then_query() {
    let mut k = Keypad::new();
    assert!(!k.is_pressed(7));
    k.set(7, true);
    assert!(k.is_pressed(7));
    assert!(!k.is_pressed(6));
    k.set(7, false);
    assert!(!k.is_pressed(7));
}

#[test]
fn first_pressed_is_lowest_key() {
    let mut k = Keypad::default();
    assert_eq!(k.first_pressed(), None);
    k.set(0xC, true);
    assert_eq!(k.first_pressed(), Some(0xC));
    k.set(0x2, true);
    assert_eq!(k.first_pressed(), Some(0x2));
    k.set(0x0, true);
    assert_eq!(k.first_pressed(), Some(0x0));
}
