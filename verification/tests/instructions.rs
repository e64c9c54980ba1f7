use chip8_emulator::cpu::{Chip8, Chip8Error};
use chip8_emulator::font::FONT;

/// A fresh machine with `program` loaded at the start address.
fn machine_with(program: &[u8]) -> Chip8 {
    let mut c = Chip8::new();
    c.load_rom(program).unwrap();
    c
}

/// Runs one instruction with a fixed random byte.
fn run(c: &mut Chip8) -> Result<(), Chip8Error> {
    assert!(c.can_step());
    c.step_with_random(0)
}

#[test]
fn new_machine_has_font_and_starts_at_rom() {
    let c = Chip8::new();
    assert_eq!(c.pc, 0x200);
    assert_eq!(c.sp, 0);
    assert_eq!(c.i, 0);
    assert_eq!(&c.memory[0x50..0xA0], &FONT[..]);
    assert!(c.memory[..0x50].iter().all(|&b| b == 0));
    assert!(c.memory[0xA0..].iter().all(|&b| b == 0));
    assert!(c.v.iter().all(|&r| r == 0));
    assert!(c.display.pixels.iter().all(|&p| !p));
    assert!(!c.waiting_for_vblank);
    assert_eq!(c.waiting_key, None);
}

#[test]
fn default_is_new() {
    let a = Chip8::default();
    let b = Chip8::new();
    assert_eq!(a.memory, b.memory);
    assert_eq!(a.pc, b.pc);
}

#[test]
fn load_rom_places_bytes() {
    let c = machine_with(&[1, 2, 3]);
    assert_eq!(&c.memory[0x200..0x203], &[1, 2, 3]);
    assert_eq!(c.memory[0x203], 0);
    assert_eq!(&c.memory[0x50..0xA0], &FONT[..]);
}

#[test]
fn load_rom_accepts_exactly_max_size() {
    let mut c = Chip8::new();
    let rom = vec![0xAB; 3584];
    assert!(c.load_rom(&rom).is_ok());
    assert_eq!(c.memory[4095], 0xAB);
}

#[test]
fn load_rom_refuses_oversized_rom() {
    let mut c = Chip8::new();
    let rom = vec![0xAB; 3585];
    let err = c.load_rom(&rom).unwrap_err();
    assert_eq!(err, "3584 is the maximum size for the ROM");
    assert_eq!(c.memory[0x200], 0);
}

#[test]
fn clear_screen() {
    let mut c = machine_with(&[0x00, 0xE0]);
    c.display.pixels[5] = true;
    run(&mut c).unwrap();
    assert!(c.display.pixels.iter().all(|&p| !p));
    assert_eq!(c.pc, 0x202);
}

#[test]
fn return_with_empty_stack_is_underflow() {
    let mut c = machine_with(&[0x00, 0xEE]);
    assert_eq!(run(&mut c), Err(Chip8Error::StackUnderflow));
    assert_eq!(c.pc, 0x202);
    assert_eq!(c.sp, 0);
}

#[test]
fn call_then_return() {
    // 0x200: call 0x206; 0x202: set V0 = 7; 0x206: return
    let mut c = machine_with(&[0x22, 0x06, 0x60, 0x07, 0x00, 0x00, 0x00, 0xEE]);
    run(&mut c).unwrap();
    assert_eq!(c.pc, 0x206);
    assert_eq!(c.sp, 1);
    assert_eq!(c.stack[0], 0x202);
    run(&mut c).unwrap();
    assert_eq!(c.pc, 0x202);
    assert_eq!(c.sp, 0);
    run(&mut c).unwrap();
    assert_eq!(c.v[0], 7);
}

#[test]
fn seventeenth_call_overflows_stack() {
    // 0x200: call 0x200, forever
    let mut c = machine_with(&[0x22, 0x00]);
    for _ in 0..16 {
        run(&mut c).unwrap();
    }
    assert_eq!(c.sp, 16);
    assert_eq!(run(&mut c), Err(Chip8Error::StackOverflow));
    assert_eq!(c.sp, 16);
    assert_eq!(c.pc, 0x202);
}

#[test]
fn jump() {
    let mut c = machine_with(&[0x1A, 0xBC]);
    run(&mut c).unwrap();
    assert_eq!(c.pc, 0xABC);
}

#[test]
fn skips_on_register_and_byte() {
    let mut c = machine_with(&[0x30, 0x00, 0x00, 0x00, 0x40, 0x00, 0x41, 0x05]);
    run(&mut c).unwrap(); // V0 == 0: skip
    assert_eq!(c.pc, 0x204);
    run(&mut c).unwrap(); // V0 != 0 is false: no skip
    assert_eq!(c.pc, 0x206);
    run(&mut c).unwrap(); // V1 != 5: skip
    assert_eq!(c.pc, 0x20A);
}

#[test]
fn skips_on_register_pairs() {
    let mut c = machine_with(&[0x50, 0x10, 0x00, 0x00, 0x90, 0x10, 0x91, 0x20]);
    c.v[2] = 1;
    run(&mut c).unwrap(); // V0 == V1: skip
    assert_eq!(c.pc, 0x204);
    run(&mut c).unwrap(); // V0 != V1 is false
    assert_eq!(c.pc, 0x206);
    run(&mut c).unwrap(); // V1 != V2: skip
    assert_eq!(c.pc, 0x20A);
}

#[test]
fn load_and_add_byte_wraps() {
    let mut c = machine_with(&[0x63, 0xF0, 0x73, 0x20]);
    run(&mut c).unwrap();
    assert_eq!(c.v[3], 0xF0);
    run(&mut c).unwrap();
    assert_eq!(c.v[3], 0x10);
    assert_eq!(c.v[0xF], 0);
}

#[test]
fn register_copy_and_logic_reset_flag() {
    let mut c = machine_with(&[0x81, 0x20, 0x81, 0x31, 0x81, 0x42, 0x81, 0x53]);
    c.v[2] = 0b1100;
    c.v[3] = 0b0011;
    c.v[4] = 0b0110;
    c.v[5] = 0b1111;
    c.v[0xF] = 9;
    run(&mut c).unwrap();
    assert_eq!(c.v[1], 0b1100);
    assert_eq!(c.v[0xF], 9);
    run(&mut c).unwrap();
    assert_eq!(c.v[1], 0b1111);
    assert_eq!(c.v[0xF], 0);
    c.v[0xF] = 9;
    run(&mut c).unwrap();
    assert_eq!(c.v[1], 0b0110);
    assert_eq!(c.v[0xF], 0);
    c.v[0xF] = 9;
    run(&mut c).unwrap();
    assert_eq!(c.v[1], 0b1001);
    assert_eq!(c.v[0xF], 0);
}

#[test]
fn add_with_carry() {
    let mut c = machine_with(&[0x80, 0x14, 0x80, 0x14]);
    c.v[0] = 200;
    c.v[1] = 100;
    run(&mut c).unwrap();
    assert_eq!(c.v[0], 44);
    assert_eq!(c.v[0xF], 1);
    run(&mut c).unwrap();
    assert_eq!(c.v[0], 144);
    assert_eq!(c.v[0xF], 0);
}

#[test]
fn add_into_flag_register_keeps_flag() {
    let mut c = machine_with(&[0x8F, 0x14]);
    c.v[0xF] = 200;
    c.v[1] = 100;
    run(&mut c).unwrap();
    assert_eq!(c.v[0xF], 1);
}

#[test]
fn subtract_with_borrow() {
    let mut c = machine_with(&[0x80, 0x15, 0x82, 0x35]);
    c.v[0] = 10;
    c.v[1] = 3;
    c.v[2] = 3;
    c.v[3] = 10;
    run(&mut c).unwrap();
    assert_eq!(c.v[0], 7);
    assert_eq!(c.v[0xF], 1);
    run(&mut c).unwrap();
    assert_eq!(c.v[2], 249);
    assert_eq!(c.v[0xF], 0);
}

#[test]
fn subtract_equal_values_has_no_borrow() {
    let mut c = machine_with(&[0x80, 0x15]);
    c.v[0] = 5;
    c.v[1] = 5;
    run(&mut c).unwrap();
    assert_eq!(c.v[0], 0);
    assert_eq!(c.v[0xF], 1);
}

#[test]
fn reverse_subtract() {
    let mut c = machine_with(&[0x80, 0x17, 0x82, 0x37]);
    c.v[0] = 3;
    c.v[1] = 10;
    c.v[2] = 10;
    c.v[3] = 3;
    run(&mut c).unwrap();
    assert_eq!(c.v[0], 7);
    assert_eq!(c.v[0xF], 1);
    run(&mut c).unwrap();
    assert_eq!(c.v[2], 249);
    assert_eq!(c.v[0xF], 0);
}

#[test]
fn shifts_read_vy() {
    let mut c = machine_with(&[0x80, 0x16, 0x82, 0x1E]);
    c.v[0] = 0xFF;
    c.v[1] = 0b1000_0101;
    run(&mut c).unwrap();
    assert_eq!(c.v[0], 0b0100_0010);
    assert_eq!(c.v[0xF], 1);
    run(&mut c).unwrap();
    assert_eq!(c.v[2], 0b0000_1010);
    assert_eq!(c.v[0xF], 1);
}

#[test]
fn shift_into_flag_register_keeps_flag() {
    let mut c = machine_with(&[0x8F, 0x1E]);
    c.v[1] = 0b0100_0000;
    run(&mut c).unwrap();
    assert_eq!(c.v[0xF], 0);
}

#[test]
fn invalid_opcodes() {
    for op in [[0x80u8, 0x08u8], [0xE0, 0x00], [0xE1, 0x9F], [0xF0, 0xFF]] {
        let mut c = machine_with(&op);
        let code = u16::from_be_bytes(op);
        assert_eq!(run(&mut c), Err(Chip8Error::InvalidOpcode(code)));
        assert_eq!(c.pc, 0x202);
    }
}

#[test]
fn index_and_offset_jump() {
    let mut c = machine_with(&[0xA1, 0x23, 0xB3, 0x00]);
    c.v[0] = 0x10;
    run(&mut c).unwrap();
    assert_eq!(c.i, 0x123);
    run(&mut c).unwrap();
    assert_eq!(c.pc, 0x310);
}

#[test]
fn random_is_masked() {
    let mut c = machine_with(&[0xC4, 0x0F, 0xC5, 0x00]);
    c.step_with_random(0xAB).unwrap();
    assert_eq!(c.v[4], 0x0B);
    assert!(c.can_step());
    c.step().unwrap();
    assert_eq!(c.v[5], 0);
}

#[test]
fn step_runs_deterministic_instructions() {
    let mut c = machine_with(&[0x6A, 0x42]);
    c.step().unwrap();
    assert_eq!(c.v[0xA], 0x42);
}

#[test]
fn draw_font_glyph() {
    // V0 = 0, I = glyph of 0, draw 5 rows at (0, 0)
    let mut c = machine_with(&[0xF0, 0x29, 0xD0, 0x05]);
    run(&mut c).unwrap();
    assert_eq!(c.i, 0x50);
    run(&mut c).unwrap();
    assert!(c.waiting_for_vblank);
    assert_eq!(c.v[0xF], 0);
    // first row of glyph 0 is 0xF0: four lit pixels
    assert!(c.display.pixels[0..4].iter().all(|&p| p));
    assert!(!c.display.pixels[4]);
    // second row 0x90
    assert!(c.display.pixels[64]);
    assert!(!c.display.pixels[65]);
    assert!(c.display.pixels[67]);
    assert_eq!(c.display.pixels.iter().filter(|&&p| p).count(), 14);
}

#[test]
fn step_waits_for_vblank() {
    let mut c = machine_with(&[0xD0, 0x05, 0x60, 0x01]);
    c.i = 0x50;
    run(&mut c).unwrap();
    assert!(c.waiting_for_vblank);
    run(&mut c).unwrap();
    assert_eq!(c.pc, 0x202);
    assert_eq!(c.v[0], 0);
    c.waiting_for_vblank = false;
    run(&mut c).unwrap();
    assert_eq!(c.v[0], 1);
}

#[test]
fn drawing_twice_erases_and_collides() {
    let mut c = machine_with(&[0xD0, 0x05, 0xD0, 0x05]);
    c.i = 0x50;
    run(&mut c).unwrap();
    assert_eq!(c.v[0xF], 0);
    c.waiting_for_vblank = false;
    run(&mut c).unwrap();
    assert_eq!(c.v[0xF], 1);
    assert!(c.display.pixels.iter().all(|&p| !p));
}

#[test]
fn drawing_clips_at_edges() {
    // draw 0xFF rows at (62, 31): only 2 pixels of the first row are visible
    let mut c = machine_with(&[0xD0, 0x12, 0xFF, 0xFF]);
    c.v[0] = 62;
    c.v[1] = 31;
    c.i = 0x202;
    run(&mut c).unwrap();
    assert_eq!(c.display.pixels.iter().filter(|&&p| p).count(), 2);
    assert!(c.display.pixels[31 * 64 + 62]);
    assert!(c.display.pixels[31 * 64 + 63]);
}

#[test]
fn drawing_position_wraps_start_coordinates() {
    let mut c = machine_with(&[0xD0, 0x11, 0x80]);
    c.v[0] = 64 + 3;
    c.v[1] = 32 + 2;
    c.i = 0x202;
    run(&mut c).unwrap();
    assert!(c.display.pixels[2 * 64 + 3]);
    assert_eq!(c.display.pixels.iter().filter(|&&p| p).count(), 1);
}

#[test]
fn sys_instruction_is_ignored() {
    let mut c = machine_with(&[0x01, 0x23, 0x01, 0xE0]);
    c.display.pixels[7] = true;
    let before = c.v;
    assert_eq!(run(&mut c), Ok(()));
    assert_eq!(c.pc, 0x202);
    assert_eq!(c.v, before);
    assert_eq!(run(&mut c), Ok(()));
    assert_eq!(c.pc, 0x204);
    assert!(c.display.pixels[7]);
}

#[test]
fn drawing_past_memory_is_out_of_bounds() {
    let mut c = machine_with(&[0xD0, 0x02, 0xD0, 0x02]);
    c.i = 0xFFF;
    c.display.pixels[0] = true;
    assert_eq!(run(&mut c), Err(Chip8Error::OutOfBounds { addr: 0x1000 }));
    assert!(!c.waiting_for_vblank);
    assert!(c.display.pixels[0]);
    assert_eq!(c.pc, 0x202);
    c.i = 0xFFE;
    assert_eq!(run(&mut c), Ok(()));
}

#[test]
fn drawing_clipped_rows_may_lie_past_memory() {
    // only the one visible row (the bottom screen row) must be in memory
    let mut c = machine_with(&[0xD0, 0x15]);
    c.v[1] = 31;
    c.i = 0xFFF;
    assert_eq!(run(&mut c), Ok(()));
}

#[test]
fn fetch_past_memory_is_out_of_bounds() {
    let mut c = Chip8::new();
    c.pc = 0xFFF;
    assert!(c.can_step());
    assert_eq!(c.step(), Err(Chip8Error::OutOfBounds { addr: 0x1000 }));
    assert_eq!(c.pc, 0xFFF);
    c.pc = 0xFFFF;
    assert_eq!(c.step_with_random(0), Err(Chip8Error::OutOfBounds { addr: 0x10000 }));
    c.waiting_for_vblank = true;
    assert_eq!(c.step(), Ok(()));
    assert_eq!(c.pc, 0xFFFF);
}

#[test]
fn return_with_corrupt_stack_pointer_cannot_step() {
    let mut c = machine_with(&[0x00, 0xEE]);
    c.sp = 17;
    assert!(!c.can_step());
    c.sp = 16;
    assert!(c.can_step());
}

#[test]
fn key_skips() {
    let mut c = machine_with(&[0xE0, 0x9E, 0x00, 0x00, 0xE0, 0xA1, 0xE1, 0xA1]);
    c.v[0] = 0x13; // low nibble 3
    c.v[1] = 4;
    c.keypad.set(3, true);
    run(&mut c).unwrap(); // key 3 down: skip
    assert_eq!(c.pc, 0x204);
    run(&mut c).unwrap(); // key 3 down: no skip
    assert_eq!(c.pc, 0x206);
    run(&mut c).unwrap(); // key 4 up: skip
    assert_eq!(c.pc, 0x20A);
}

#[test]
fn wait_for_key_press_and_release() {
    let mut c = machine_with(&[0xF5, 0x0A]);
    run(&mut c).unwrap();
    assert_eq!(c.pc, 0x200);
    assert_eq!(c.waiting_key, None);
    c.keypad.set(9, true);
    c.keypad.set(0xB, true);
    run(&mut c).unwrap();
    assert_eq!(c.pc, 0x200);
    assert_eq!(c.waiting_key, Some(9));
    assert_eq!(c.v[5], 0);
    run(&mut c).unwrap(); // still held
    assert_eq!(c.pc, 0x200);
    c.keypad.set(9, false);
    run(&mut c).unwrap();
    assert_eq!(c.pc, 0x202);
    assert_eq!(c.v[5], 9);
    assert_eq!(c.waiting_key, None);
}

#[test]
fn timers_and_registers() {
    let mut c = machine_with(&[0xF3, 0x15, 0xF3, 0x18, 0xF4, 0x07]);
    c.v[3] = 2;
    run(&mut c).unwrap();
    run(&mut c).unwrap();
    assert_eq!(c.delay_timer, 2);
    assert_eq!(c.sound_timer, 2);
    c.tick_timers();
    run(&mut c).unwrap();
    assert_eq!(c.v[4], 1);
    c.tick_timers();
    c.tick_timers();
    assert_eq!(c.delay_timer, 0);
    assert_eq!(c.sound_timer, 0);
}

#[test]
fn add_to_index_wraps() {
    let mut c = machine_with(&[0xF0, 0x1E]);
    c.i = 0xFFFF;
    c.v[0] = 2;
    run(&mut c).unwrap();
    assert_eq!(c.i, 1);
}

#[test]
fn font_address_uses_low_nibble() {
    let mut c = machine_with(&[0xF2, 0x29]);
    c.v[2] = 0x1A;
    run(&mut c).unwrap();
    assert_eq!(c.i, 0x50 + 10 * 5);
}

#[test]
fn bcd() {
    let mut c = machine_with(&[0xF6, 0x33]);
    c.v[6] = 159;
    c.i = 0x300;
    run(&mut c).unwrap();
    assert_eq!(&c.memory[0x300..0x303], &[1, 5, 9]);
    assert_eq!(c.i, 0x300);
}

#[test]
fn bcd_out_of_bounds() {
    let mut c = machine_with(&[0xF6, 0x33]);
    c.i = 0xFFE;
    assert_eq!(run(&mut c), Err(Chip8Error::OutOfBounds { addr: 0x1000 }));
    assert_eq!(c.memory[0xFFE], 0);
}

#[test]
fn store_and_load_registers() {
    let mut c = machine_with(&[0xF2, 0x55, 0xA4, 0x00, 0xF2, 0x65]);
    c.v[0] = 11;
    c.v[1] = 22;
    c.v[2] = 33;
    c.v[3] = 44;
    c.i = 0x400;
    run(&mut c).unwrap();
    assert_eq!(&c.memory[0x400..0x404], &[11, 22, 33, 0]);
    assert_eq!(c.i, 0x403);
    c.v = [0; 16];
    run(&mut c).unwrap();
    run(&mut c).unwrap();
    assert_eq!(&c.v[0..4], &[11, 22, 33, 0]);
    assert_eq!(c.i, 0x403);
}

#[test]
fn store_registers_out_of_bounds() {
    let mut c = machine_with(&[0xF3, 0x55]);
    c.i = 0xFFD;
    c.v[3] = 7;
    assert_eq!(run(&mut c), Err(Chip8Error::OutOfBounds { addr: 0x1000 }));
    assert_eq!(c.memory[0xFFD], 0);
    assert_eq!(c.i, 0xFFD);
}

#[test]
fn load_registers_out_of_bounds() {
    let mut c = machine_with(&[0xF1, 0x65]);
    c.i = 0xFFF;
    assert_eq!(run(&mut c), Err(Chip8Error::OutOfBounds { addr: 0x1000 }));
    c.i = 0xFFE;
    c.pc = 0x200;
    assert_eq!(run(&mut c), Ok(()));
}

#[test]
fn store_registers_wraps_index() {
    let mut c = machine_with(&[0xF0, 0x55]);
    c.i = 0xFFF;
    c.v[0] = 5;
    run(&mut c).unwrap();
    assert_eq!(c.memory[0xFFF], 5);
    assert_eq!(c.i, 0x1000);
}
