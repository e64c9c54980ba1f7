use vstd::prelude::*;

use crate::cpu::Chip8Error;
use crate::display::{blank_screen, HEIGHT, PIXEL_COUNT, WIDTH};
use crate::font::{FONT, FONT_SIZE};
use crate::keypad::{first_pressed_key, no_key_pressed, KEY_COUNT};

verus! {

/// Size of the addressable memory in bytes.
pub const MEMORY_SIZE: usize = 4096;

/// Address at which the built-in font is stored.
pub const FONT_START: usize = 0x050;

/// Address at which programs are loaded and execution starts.
pub const ROM_START: usize = 0x200;

/// Largest program that fits in memory after `ROM_START`.
pub const MAX_ROM_SIZE: usize = 3584;

/// Number of return addresses the call stack holds.
pub const STACK_SIZE: usize = 16;

/// Number of general-purpose registers `V0..VF`.
pub const REGISTER_COUNT: usize = 16;

/// Index of the flag register `VF`.
pub const VF: usize = 0xF;

/// The whole state of the interpreter, as mathematical values.
#[verifier::ext_equal]
pub struct Machine {
    pub memory: Seq<u8>,
    pub v: Seq<u8>,
    pub i: u16,
    pub pc: u16,
    pub stack: Seq<u16>,
    pub sp: usize,
    pub delay_timer: u8,
    pub sound_timer: u8,
    pub pixels: Seq<bool>,
    pub keys: Seq<bool>,
    pub waiting_for_vblank: bool,
    pub waiting_key: Option<u8>,
}

// ---------------------------------------------------------------------------
// Arithmetic on bytes and addresses
// ---------------------------------------------------------------------------

/// Addition modulo 256.
pub open spec fn add8(a: u8, b: u8) -> u8 {
    ((a + b) % 256) as u8
}

/// Subtraction modulo 256.
pub open spec fn sub8(a: u8, b: u8) -> u8 {
    ((a - b + 256) % 256) as u8
}

/// Addition modulo 65536.
pub open spec fn add16(a: u16, b: u16) -> u16 {
    ((a + b) % 65536) as u16
}

// ---------------------------------------------------------------------------
// Decoding
// ---------------------------------------------------------------------------

/// The instruction group: the highest hexadecimal digit of the opcode.
pub open spec fn op_group(opcode: u16) -> u16 {
    opcode / 4096
}

/// The register named by the second hexadecimal digit (`X` in `_X__`).
pub open spec fn reg_x(opcode: u16) -> int {
    ((opcode / 256) % 16) as int
}

/// The register named by the third hexadecimal digit (`Y` in `__Y_`).
pub open spec fn reg_y(opcode: u16) -> int {
    ((opcode / 16) % 16) as int
}

/// The lowest hexadecimal digit (`N` in `___N`).
pub open spec fn nibble_n(opcode: u16) -> u16 {
    opcode % 16
}

/// The low byte (`KK` in `__KK`).
pub open spec fn byte_kk(opcode: u16) -> u8 {
    (opcode % 256) as u8
}

/// The low twelve bits, an address (`NNN` in `_NNN`).
pub open spec fn addr_nnn(opcode: u16) -> u16 {
    opcode % 4096
}

/// The opcode stored big-endian at `pc` and `pc + 1`.
pub open spec fn opcode_at(m: Machine) -> u16 {
    (m.memory[m.pc as int] * 256 + m.memory[m.pc + 1]) as u16
}

// ---------------------------------------------------------------------------
// Small state updates
// ---------------------------------------------------------------------------

impl Machine {
    /// Register `r` set to `val`.
    pub open spec fn set_reg(self, r: int, val: u8) -> Machine {
        Machine { v: self.v.update(r, val), ..self }
    }

    /// Register `r` set to `val`, then `VF` set to `flag`.
    pub open spec fn set_reg_flag(self, r: int, val: u8, flag: u8) -> Machine {
        Machine { v: self.v.update(r, val).update(VF as int, flag), ..self }
    }

    /// The next instruction skipped when `cond` holds.
    pub open spec fn skip_if(self, cond: bool) -> Machine {
        if cond {
            Machine { pc: (self.pc + 2) as u16, ..self }
        } else {
            self
        }
    }

    /// The current instruction run again on the next step.
    pub open spec fn repeat_instruction(self) -> Machine {
        Machine { pc: (self.pc - 2) as u16, ..self }
    }

    /// The program counter moved past the instruction at `pc`.
    pub open spec fn fetched(self) -> Machine {
        Machine { pc: (self.pc + 2) as u16, ..self }
    }

    /// The shapes of the sequences fixed by the hardware.
    pub open spec fn well_shaped(self) -> bool {
        &&& self.memory.len() == MEMORY_SIZE
        &&& self.v.len() == REGISTER_COUNT
        &&& self.stack.len() == STACK_SIZE
        &&& self.pixels.len() == PIXEL_COUNT
        &&& self.keys.len() == KEY_COUNT
    }
}

// ---------------------------------------------------------------------------
// Drawing
// ---------------------------------------------------------------------------

/// Bit `col` of a sprite row, counted from the most significant bit.
pub open spec fn sprite_bit(byte: u8, col: u8) -> bool {
    (byte >> ((7 - col) as u8)) & 1u8 == 1u8
}

/// Whether the sprite of `n` rows read from `I`, drawn with its top-left corner
/// at (`vx`, `vy`), covers the pixel (`px`, `py`) with a set bit. Parts of the
/// sprite past the right or bottom edge are clipped.
pub open spec fn sprite_pixel(m: Machine, vx: int, vy: int, n: int, px: int, py: int) -> bool {
    &&& vx <= px < vx + 8
    &&& px < WIDTH
    &&& vy <= py < vy + n
    &&& py < HEIGHT
    &&& sprite_bit(m.memory[m.i + (py - vy)], (px - vx) as u8)
}

/// Whether screen position `idx` is flipped by the sprite.
pub open spec fn sprite_covers(m: Machine, vx: int, vy: int, n: int, idx: int) -> bool {
    sprite_pixel(m, vx, vy, n, idx % (WIDTH as int), idx / (WIDTH as int))
}

/// Whether the sprite flips a pixel that was lit.
pub open spec fn sprite_collides(m: Machine, vx: int, vy: int, n: int) -> bool {
    exists|idx: int|
        0 <= idx < PIXEL_COUNT && #[trigger] sprite_covers(m, vx, vy, n, idx) && m.pixels[idx]
}

/// The screen with the sprite XORed onto it.
pub open spec fn drawn_pixels(m: Machine, vx: int, vy: int, n: int) -> Seq<bool> {
    Seq::new(PIXEL_COUNT as nat, |idx: int| m.pixels[idx] != sprite_covers(m, vx, vy, n, idx))
}

/// `DXYN`: the `n`-row sprite at `I` XORed onto the screen at (`VX mod 64`,
/// `VY mod 32`), clipped at the edges; `VF` becomes 1 when a lit pixel was
/// turned off and 0 otherwise; the interpreter then waits for the next frame.
pub open spec fn draw_spec(m: Machine, x: int, y: int, n: int) -> Machine {
    let vx = (m.v[x] % 64) as int;
    let vy = (m.v[y] % 32) as int;
    Machine {
        pixels: drawn_pixels(m, vx, vy, n),
        v: m.v.update(VF as int, if sprite_collides(m, vx, vy, n) { 1u8 } else { 0u8 }),
        waiting_for_vblank: true,
        ..m
    }
}

/// The number of sprite rows that land on the screen: `n`, clipped at the
/// bottom edge.
pub open spec fn visible_rows(m: Machine, y: int, n: int) -> int {
    let vy = (m.v[y] % 32) as int;
    if n < HEIGHT - vy {
        n
    } else {
        HEIGHT - vy
    }
}

/// Whether the sprite rows that land on the screen lie inside memory.
pub open spec fn draw_in_memory(m: Machine, y: int, n: int) -> bool {
    visible_rows(m, y, n) == 0 || m.i + visible_rows(m, y, n) - 1 < MEMORY_SIZE
}

/// `DXYN` as a whole: the draw when the sprite rows it shows lie in memory,
/// otherwise an out-of-bounds error naming the last row's address, with the
/// machine untouched.
pub open spec fn draw_instruction_spec(m: Machine, x: int, y: int, n: int) -> (Machine, Result<(), Chip8Error>) {
    if draw_in_memory(m, y, n) {
        (draw_spec(m, x, y, n), Ok(()))
    } else {
        (m, Err(Chip8Error::OutOfBounds { addr: (m.i + visible_rows(m, y, n) - 1) as usize }))
    }
}

// ---------------------------------------------------------------------------
// Instruction semantics
// ---------------------------------------------------------------------------

/// Groups `0` to `7`, `9` to `C` and `E`: flow control, skips, loads and key
/// tests. In group `0`, `00E0` clears the screen, `00EE` returns, and any other
/// `0NNN` (a call into native code on the original hardware) does nothing.
pub open spec fn control_spec(m: Machine, opcode: u16, random: u8) -> (Machine, Result<(), Chip8Error>) {
    let x = reg_x(opcode);
    let y = reg_y(opcode);
    let kk = byte_kk(opcode);
    let nnn = addr_nnn(opcode);
    let invalid = (m, Err(Chip8Error::InvalidOpcode(opcode)));
    let group = op_group(opcode);
    if group == 0x0 {
        if opcode == 0x00E0 {
            (Machine { pixels: blank_screen(), ..m }, Ok(()))
        } else if opcode == 0x00EE {
            if m.sp == 0 {
                (m, Err(Chip8Error::StackUnderflow))
            } else {
                (Machine { sp: (m.sp - 1) as usize, pc: m.stack[m.sp - 1], ..m }, Ok(()))
            }
        } else {
            // `0NNN` (SYS): a call into native machine code, ignored.
            (m, Ok(()))
        }
    } else if group == 0x1 {
        (Machine { pc: nnn, ..m }, Ok(()))
    } else if group == 0x2 {
        if m.sp >= STACK_SIZE {
            (m, Err(Chip8Error::StackOverflow))
        } else {
            (
                Machine {
                    stack: m.stack.update(m.sp as int, m.pc),
                    sp: (m.sp + 1) as usize,
                    pc: nnn,
                    ..m
                },
                Ok(()),
            )
        }
    } else if group == 0x3 {
        (m.skip_if(m.v[x] == kk), Ok(()))
    } else if group == 0x4 {
        (m.skip_if(m.v[x] != kk), Ok(()))
    } else if group == 0x5 {
        (m.skip_if(m.v[x] == m.v[y]), Ok(()))
    } else if group == 0x6 {
        (m.set_reg(x, kk), Ok(()))
    } else if group == 0x7 {
        (m.set_reg(x, add8(m.v[x], kk)), Ok(()))
    } else if group == 0x9 {
        (m.skip_if(m.v[x] != m.v[y]), Ok(()))
    } else if group == 0xA {
        (Machine { i: nnn, ..m }, Ok(()))
    } else if group == 0xB {
        (Machine { pc: add16(m.v[0] as u16, nnn), ..m }, Ok(()))
    } else if group == 0xC {
        (m.set_reg(x, random & kk), Ok(()))
    } else if group == 0xE {
        if kk == 0x9E {
            (m.skip_if(m.keys[(m.v[x] % 16) as int]), Ok(()))
        } else if kk == 0xA1 {
            (m.skip_if(!m.keys[(m.v[x] % 16) as int]), Ok(()))
        } else {
            invalid
        }
    } else {
        invalid
    }
}

/// Group `8`: register-to-register arithmetic and logic.
pub open spec fn alu_spec(m: Machine, opcode: u16) -> (Machine, Result<(), Chip8Error>) {
    let x = reg_x(opcode);
    let y = reg_y(opcode);
    let vx = m.v[x];
    let vy = m.v[y];
    let n = nibble_n(opcode);
    if n == 0x0 {
        (m.set_reg(x, vy), Ok(()))
    } else if n == 0x1 {
        (m.set_reg_flag(x, vx | vy, 0), Ok(()))
    } else if n == 0x2 {
        (m.set_reg_flag(x, vx & vy, 0), Ok(()))
    } else if n == 0x3 {
        (m.set_reg_flag(x, vx ^ vy, 0), Ok(()))
    } else if n == 0x4 {
        (m.set_reg_flag(x, add8(vx, vy), if vx + vy > 255 { 1 } else { 0 }), Ok(()))
    } else if n == 0x5 {
        (m.set_reg_flag(x, sub8(vx, vy), if vx >= vy { 1 } else { 0 }), Ok(()))
    } else if n == 0x6 {
        (m.set_reg_flag(x, vy / 2, vy % 2), Ok(()))
    } else if n == 0x7 {
        (m.set_reg_flag(x, sub8(vy, vx), if vy >= vx { 1 } else { 0 }), Ok(()))
    } else if n == 0xE {
        (m.set_reg_flag(x, ((vy * 2) % 256) as u8, vy / 128), Ok(()))
    } else {
        (m, Err(Chip8Error::InvalidOpcode(opcode)))
    }
}

/// `FX0A`: wait until a key is pressed and then released, and put it in `VX`.
pub open spec fn wait_key_spec(m: Machine, x: int) -> Machine {
    match m.waiting_key {
        Some(key) => if !m.keys[key as int] {
            Machine { v: m.v.update(x, key), waiting_key: None, ..m }
        } else {
            m.repeat_instruction()
        },
        None => match first_pressed_key(m.keys) {
            Some(key) => Machine { waiting_key: Some(key), ..m.repeat_instruction() },
            None => m.repeat_instruction(),
        },
    }
}

/// `FX55`: registers `V0..=VX` written to memory from `I` on, then `I`
/// advanced past them.
pub open spec fn store_registers_spec(m: Machine, x: int) -> Machine {
    Machine {
        memory: Seq::new(
            m.memory.len(),
            |a: int| if m.i <= a <= m.i + x { m.v[a - m.i] } else { m.memory[a] },
        ),
        i: add16(m.i, (x + 1) as u16),
        ..m
    }
}

/// `FX65`: registers `V0..=VX` read from memory from `I` on, then `I`
/// advanced past them.
pub open spec fn load_registers_spec(m: Machine, x: int) -> Machine {
    Machine {
        v: Seq::new(m.v.len(), |r: int| if r <= x { m.memory[m.i + r] } else { m.v[r] }),
        i: add16(m.i, (x + 1) as u16),
        ..m
    }
}

/// `FX33`: the hundreds, tens and units digits of `VX` at `I`, `I+1`, `I+2`.
pub open spec fn bcd_spec(m: Machine, x: int) -> Machine {
    let vx = m.v[x];
    Machine {
        memory: m.memory.update(m.i as int, vx / 100 % 10).update(m.i + 1, vx / 10 % 10).update(
            m.i + 2,
            vx % 10,
        ),
        ..m
    }
}

/// Group `F`: timers, keys, the index register and memory transfers.
pub open spec fn misc_spec(m: Machine, opcode: u16) -> (Machine, Result<(), Chip8Error>) {
    let x = reg_x(opcode);
    let vx = m.v[x];
    let kk = byte_kk(opcode);
    if kk == 0x07 {
        (m.set_reg(x, m.delay_timer), Ok(()))
    } else if kk == 0x0A {
        (wait_key_spec(m, x), Ok(()))
    } else if kk == 0x15 {
        (Machine { delay_timer: vx, ..m }, Ok(()))
    } else if kk == 0x18 {
        (Machine { sound_timer: vx, ..m }, Ok(()))
    } else if kk == 0x1E {
        (Machine { i: add16(m.i, vx as u16), ..m }, Ok(()))
    } else if kk == 0x29 {
        (Machine { i: (FONT_START + (vx % 16) * 5) as u16, ..m }, Ok(()))
    } else if kk == 0x33 {
        if m.i + 2 >= MEMORY_SIZE {
            (m, Err(Chip8Error::OutOfBounds { addr: (m.i + 2) as usize }))
        } else {
            (bcd_spec(m, x), Ok(()))
        }
    } else if kk == 0x55 {
        if m.i + x >= MEMORY_SIZE {
            (m, Err(Chip8Error::OutOfBounds { addr: (m.i + x) as usize }))
        } else {
            (store_registers_spec(m, x), Ok(()))
        }
    } else if kk == 0x65 {
        if m.i + x >= MEMORY_SIZE {
            (m, Err(Chip8Error::OutOfBounds { addr: (m.i + x) as usize }))
        } else {
            (load_registers_spec(m, x), Ok(()))
        }
    } else {
        (m, Err(Chip8Error::InvalidOpcode(opcode)))
    }
}

/// The effect of executing `opcode` on a machine whose program counter has
/// already moved past it. `random` is the byte that `CXKK` masks.
pub open spec fn execute_spec(m: Machine, opcode: u16, random: u8) -> (Machine, Result<(), Chip8Error>) {
    let group = op_group(opcode);
    if group == 0x8 {
        alu_spec(m, opcode)
    } else if group == 0xD {
        draw_instruction_spec(m, reg_x(opcode), reg_y(opcode), nibble_n(opcode) as int)
    } else if group == 0xF {
        misc_spec(m, opcode)
    } else {
        control_spec(m, opcode, random)
    }
}

/// Whether executing `opcode` stays within the machine: a return needs a stack
/// pointer of at most 16, and waiting for a key needs a remembered key below 16.
pub open spec fn execute_defined(m: Machine, opcode: u16) -> bool {
    let group = op_group(opcode);
    let kk = byte_kk(opcode);
    &&& opcode == 0x00EE ==> m.sp <= STACK_SIZE
    &&& (group == 0xF && kk == 0x0A) ==> (m.waiting_key matches Some(k) ==> k < KEY_COUNT)
}

/// One step: nothing while waiting for the next frame; an out-of-bounds error
/// naming `pc + 1`, with the machine untouched, when the opcode at `pc` does
/// not lie inside memory; otherwise fetch the opcode at `pc`, advance `pc` by
/// two, and execute it.
pub open spec fn step_spec(m: Machine, random: u8) -> (Machine, Result<(), Chip8Error>) {
    if m.waiting_for_vblank {
        (m, Ok(()))
    } else if m.pc + 1 >= MEMORY_SIZE {
        (m, Err(Chip8Error::OutOfBounds { addr: (m.pc + 1) as usize }))
    } else {
        execute_spec(m.fetched(), opcode_at(m), random)
    }
}

/// Whether the next step stays within the machine: the execution of the
/// opcode it fetches, if any, must be defined.
pub open spec fn step_defined(m: Machine) -> bool {
    m.waiting_for_vblank || m.pc + 1 >= MEMORY_SIZE || execute_defined(m.fetched(), opcode_at(m))
}

/// Whether the next step executes `CXKK`, the one instruction whose effect
/// depends on a random byte.
pub open spec fn next_is_random(m: Machine) -> bool {
    !m.waiting_for_vblank && m.pc + 1 < MEMORY_SIZE && op_group(opcode_at(m)) == 0xC
}

/// The conditions that every step keeps: the sequences have their hardware
/// sizes, the stack pointer is at most the stack size, and a remembered key is
/// a key of the keypad.
pub open spec fn machine_invariant(m: Machine) -> bool {
    &&& m.well_shaped()
    &&& m.sp <= STACK_SIZE
    &&& m.waiting_key matches Some(k) ==> k < KEY_COUNT
}

/// The machine and the errors reported, in order, after `count` steps that use
/// the random bytes `randoms[0]`, ..., `randoms[count - 1]`. A step that fails
/// adds its error and the run goes on.
pub open spec fn steps_spec(m: Machine, count: nat, randoms: Seq<u8>) -> (Machine, Seq<Chip8Error>)
    decreases count,
{
    if count == 0 {
        (m, Seq::empty())
    } else {
        let before = steps_spec(m, (count - 1) as nat, randoms);
        let after = step_spec(before.0, randoms[count - 1]);
        (
            after.0,
            match after.1 {
                Ok(_) => before.1,
                Err(e) => before.1.push(e),
            },
        )
    }
}

/// One video frame: the keypad takes the state `keys`, `speed` instructions
/// run (with the random bytes `randoms`), the timers tick once, and the wait
/// for the frame boundary that a draw started ends.
pub open spec fn frame_spec(m: Machine, keys: Seq<bool>, speed: nat, randoms: Seq<u8>) -> (Machine, Seq<Chip8Error>) {
    let run = steps_spec(Machine { keys: keys, ..m }, speed, randoms);
    (Machine { waiting_for_vblank: false, ..tick_spec(run.0) }, run.1)
}

/// One tick of the 60 Hz timers: each counts down to zero and stays there.
pub open spec fn tick_spec(m: Machine) -> Machine {
    Machine {
        delay_timer: if m.delay_timer > 0 { (m.delay_timer - 1) as u8 } else { 0 },
        sound_timer: if m.sound_timer > 0 { (m.sound_timer - 1) as u8 } else { 0 },
        ..m
    }
}

/// The machine as it starts: the font at `FONT_START`, all other memory, the
/// registers, the stack and the timers zero, the screen blank, no key pressed,
/// and execution about to start at `ROM_START`.
pub open spec fn initial_machine() -> Machine {
    Machine {
        memory: Seq::new(
            MEMORY_SIZE as nat,
            |a: int| if FONT_START <= a < FONT_START + FONT_SIZE { FONT@[a - FONT_START] } else { 0u8 },
        ),
        v: Seq::new(REGISTER_COUNT as nat, |r: int| 0u8),
        i: 0,
        pc: ROM_START as u16,
        stack: Seq::new(STACK_SIZE as nat, |s: int| 0u16),
        sp: 0,
        delay_timer: 0,
        sound_timer: 0,
        pixels: blank_screen(),
        keys: no_key_pressed(),
        waiting_for_vblank: false,
        waiting_key: None,
    }
}

/// The machine with `rom` copied into memory from `ROM_START` on.
pub open spec fn rom_loaded(m: Machine, rom: Seq<u8>) -> Machine {
    Machine {
        memory: Seq::new(
            m.memory.len(),
            |a: int| if ROM_START <= a < ROM_START + rom.len() { rom[a - ROM_START] } else { m.memory[a] },
        ),
        ..m
    }
}

} // verus!
