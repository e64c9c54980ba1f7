use vstd::prelude::*;

use crate::display::{Display, HEIGHT, PIXEL_COUNT, WIDTH};
use crate::font::{FONT, FONT_SIZE};
use crate::keypad::{Keypad, KEY_COUNT};
use crate::machine::{
    add8, alu_spec, bcd_spec, control_spec, draw_instruction_spec, draw_spec, execute_defined,
    execute_spec, initial_machine, load_registers_spec, misc_spec, next_is_random, op_group,
    opcode_at, rom_loaded, sprite_collides, sprite_covers, step_defined, step_spec,
    store_registers_spec, sub8, tick_spec, wait_key_spec, Machine, FONT_START, MAX_ROM_SIZE,
    MEMORY_SIZE, REGISTER_COUNT, ROM_START, STACK_SIZE, VF,
};
use crate::rng::random_byte;

verus! {

/// Why an instruction could not be carried out.
#[derive(Debug, Clone, Copy, PartialEq, Eq)]
pub enum Chip8Error {
    /// A subroutine call with all sixteen stack slots in use.
    StackOverflow,
    /// A return with an empty call stack.
    StackUnderflow,
    /// An opcode that is not part of the instruction set.
    InvalidOpcode(u16),
    /// A memory access past the end of memory (fetching an opcode, reading
    /// the visible rows of a sprite, or a transfer to or from memory); `addr`
    /// is the last address it would have touched.
    OutOfBounds { addr: usize },
}

/// The interpreter: memory, registers, call stack, timers, screen and keypad.
pub struct Chip8 {
    pub memory: [u8; MEMORY_SIZE],
    pub v: [u8; REGISTER_COUNT],
    pub i: u16,
    pub pc: u16,
    pub stack: [u16; STACK_SIZE],
    /// Number of return addresses on the stack; normally at most `STACK_SIZE`.
    pub sp: usize,
    pub delay_timer: u8,
    pub sound_timer: u8,
    pub display: Display,
    pub keypad: Keypad,
    /// Set by a draw; no instruction runs until the front end clears it at the
    /// next frame.
    pub waiting_for_vblank: bool,
    /// The key that `FX0A` saw pressed and now waits to see released.
    pub waiting_key: Option<u8>,
}

impl View for Chip8 {
    type V = Machine;

    open spec fn view(&self) -> Machine {
        Machine {
            memory: self.memory@,
            v: self.v@,
            i: self.i,
            pc: self.pc,
            stack: self.stack@,
            sp: self.sp,
            delay_timer: self.delay_timer,
            sound_timer: self.sound_timer,
            pixels: self.display.pixels@,
            keys: self.keypad.keys@,
            waiting_for_vblank: self.waiting_for_vblank,
            waiting_key: self.waiting_key,
        }
    }
}

/// Whether the pixel at `idx` comes before sprite position (`row`, `col`) in
/// drawing order and is flipped by the sprite.
spec fn drawn_before(m: Machine, vx: int, vy: int, n: int, row: int, col: int, idx: int) -> bool {
    sprite_covers(m, vx, vy, n, idx) && (idx / (WIDTH as int) - vy) * 8 + (idx % (WIDTH as int)
        - vx) < row * 8 + col
}

/// Whether a lit pixel was flipped before sprite position (`row`, `col`).
spec fn collided_before(m: Machine, vx: int, vy: int, n: int, row: int, col: int) -> bool {
    exists|idx: int|
        0 <= idx < PIXEL_COUNT && #[trigger] drawn_before(m, vx, vy, n, row, col, idx)
            && m.pixels[idx]
}

/// The machine part way through drawing: every sprite position before (`row`,
/// `col`) applied.
spec fn partial_draw(m: Machine, vx: int, vy: int, n: int, row: int, col: int) -> Machine {
    Machine {
        pixels: Seq::new(
            PIXEL_COUNT as nat,
            |idx: int| m.pixels[idx] != drawn_before(m, vx, vy, n, row, col, idx),
        ),
        v: m.v.update(
            VF as int,
            if collided_before(m, vx, vy, n, row, col) {
                1u8
            } else {
                0u8
            },
        ),
        ..m
    }
}

impl Chip8 {
    /// `DXYN`: draws the `n`-row sprite stored at `I` at (`VX mod 64`,
    /// `VY mod 32`), XORing it onto the screen and clipping it at the edges;
    /// `VF` reports whether a lit pixel was turned off.
    /// A sprite whose visible rows reach past memory is refused with
    /// `OutOfBounds` naming the last visible row's address.
    fn op_dxyn(&mut self, x: usize, y: usize, n: u8) -> (res: Result<(), Chip8Error>)
        requires
            x < REGISTER_COUNT,
            y < REGISTER_COUNT,
        ensures
            final(self)@ == draw_instruction_spec(old(self)@, x as int, y as int, n as int).0,
            res == draw_instruction_spec(old(self)@, x as int, y as int, n as int).1,
    {
        let ghost m = self@;
        let vx: usize = self.v[x] as usize % WIDTH;
        let vy: usize = self.v[y] as usize % HEIGHT;
        let rows: usize = if (n as usize) < HEIGHT - vy {
            n as usize
        } else {
            HEIGHT - vy
        };
        let cols: usize = if 8 < WIDTH - vx {
            8
        } else {
            WIDTH - vx
        };
        if rows > 0 && self.i as usize + rows - 1 >= MEMORY_SIZE {
            return Err(Chip8Error::OutOfBounds { addr: self.i as usize + rows - 1 });
        }
        self.v[VF] = 0;
        assert(self@ =~= partial_draw(m, vx as int, vy as int, n as int, 0, 0));
        let mut row: usize = 0;
        while row < rows
            invariant
                row <= rows,
                vx < WIDTH,
                vy < HEIGHT,
                vx == m.v[x as int] % 64,
                vy == m.v[y as int] % 32,
                x < REGISTER_COUNT,
                y < REGISTER_COUNT,
                rows == if (n as int) < HEIGHT - vy { n as int } else { HEIGHT - vy },
                cols == if 8 < WIDTH - vx { 8 } else { WIDTH - vx },
                rows == 0 || m.i + rows - 1 < MEMORY_SIZE,
                m.well_shaped(),
                self@ == partial_draw(m, vx as int, vy as int, n as int, row as int, 0),
            decreases rows - row,
        {
            let byte: u8 = self.memory[self.i as usize + row];
            let mut col: usize = 0;
            while col < cols
                invariant
                    row < rows,
                    col <= cols,
                    vx < WIDTH,
                    vy < HEIGHT,
                    rows <= HEIGHT - vy,
                    rows <= n,
                    cols == if 8 < WIDTH - vx { 8 } else { WIDTH - vx },
                    m.well_shaped(),
                    m.i + row < MEMORY_SIZE,
                    byte == m.memory[m.i + row],
                    self@ == partial_draw(m, vx as int, vy as int, n as int, row as int, col as int),
                decreases cols - col,
            {
                let bit: bool = (byte >> (7 - col as u8)) & 1 == 1;
                let ghost before = self@;
                if bit {
                    let index: usize = (vy + row) * WIDTH + (vx + col);
                    if self.display.pixels[index] {
                        self.v[VF] = 1;
                    }
                    self.display.pixels[index] = !self.display.pixels[index];
                }
                proof {
                    let idx0 = ((vy + row) * WIDTH + (vx + col)) as int;
                    assert(idx0 % 64 == vx + col);
                    assert(idx0 / 64 == vy + row);
                    assert(sprite_covers(m, vx as int, vy as int, n as int, idx0) == bit);
                    assert forall|idx: int| 0 <= idx < PIXEL_COUNT implies
                        #[trigger] drawn_before(m, vx as int, vy as int, n as int, row as int, col + 1, idx)
                        == (drawn_before(m, vx as int, vy as int, n as int, row as int, col as int, idx)
                            || (idx == idx0 && bit)) by {
                        assert(idx == (idx / 64) * 64 + idx % 64);
                    }
                    assert(!drawn_before(m, vx as int, vy as int, n as int, row as int, col as int, idx0));
                    let c_old = collided_before(m, vx as int, vy as int, n as int, row as int, col as int);
                    let c_new = collided_before(m, vx as int, vy as int, n as int, row as int, col + 1);
                    if c_old {
                        let w = choose|idx: int| 0 <= idx < PIXEL_COUNT && #[trigger] drawn_before(m, vx as int, vy as int, n as int, row as int, col as int, idx) && m.pixels[idx];
                        assert(drawn_before(m, vx as int, vy as int, n as int, row as int, col + 1, w));
                    }
                    if bit && m.pixels[idx0] {
                        assert(drawn_before(m, vx as int, vy as int, n as int, row as int, col + 1, idx0));
                    }
                    if c_new {
                        let w = choose|idx: int| 0 <= idx < PIXEL_COUNT && #[trigger] drawn_before(m, vx as int, vy as int, n as int, row as int, col + 1, idx) && m.pixels[idx];
                        assert(drawn_before(m, vx as int, vy as int, n as int, row as int, col as int, w) || (w == idx0 && bit));
                    }
                    assert(c_new == (c_old || (bit && m.pixels[idx0])));
                    assert(before.pixels[idx0] == m.pixels[idx0]);
                    let after = partial_draw(m, vx as int, vy as int, n as int, row as int, col + 1);
                    assert(self.display.pixels@ =~= after.pixels);
                    assert(self.v@ =~= after.v);
                }
                col += 1;
            }
            proof {
                assert forall|idx: int| 0 <= idx < PIXEL_COUNT implies
                    #[trigger] drawn_before(m, vx as int, vy as int, n as int, row + 1, 0, idx)
                    == drawn_before(m, vx as int, vy as int, n as int, row as int, cols as int, idx) by {
                }
                let c_old = collided_before(m, vx as int, vy as int, n as int, row as int, cols as int);
                let c_new = collided_before(m, vx as int, vy as int, n as int, row + 1, 0);
                if c_old {
                    let w = choose|idx: int| 0 <= idx < PIXEL_COUNT && #[trigger] drawn_before(m, vx as int, vy as int, n as int, row as int, cols as int, idx) && m.pixels[idx];
                    assert(drawn_before(m, vx as int, vy as int, n as int, row + 1, 0, w));
                }
                if c_new {
                    let w = choose|idx: int| 0 <= idx < PIXEL_COUNT && #[trigger] drawn_before(m, vx as int, vy as int, n as int, row + 1, 0, idx) && m.pixels[idx];
                    assert(drawn_before(m, vx as int, vy as int, n as int, row as int, cols as int, w));
                }
                let after = partial_draw(m, vx as int, vy as int, n as int, row + 1, 0);
                assert(self.display.pixels@ =~= after.pixels);
                assert(self.v@ =~= after.v);
            }
            row += 1;
        }
        proof {
            assert forall|idx: int| 0 <= idx < PIXEL_COUNT implies
                drawn_before(m, vx as int, vy as int, n as int, rows as int, 0, idx)
                == #[trigger] sprite_covers(m, vx as int, vy as int, n as int, idx) by {
            }
            let c_old = collided_before(m, vx as int, vy as int, n as int, rows as int, 0);
            let c_new = sprite_collides(m, vx as int, vy as int, n as int);
            if c_old {
                let w = choose|idx: int| 0 <= idx < PIXEL_COUNT && #[trigger] drawn_before(m, vx as int, vy as int, n as int, rows as int, 0, idx) && m.pixels[idx];
                assert(sprite_covers(m, vx as int, vy as int, n as int, w));
            }
            if c_new {
                let w = choose|idx: int| 0 <= idx < PIXEL_COUNT && #[trigger] sprite_covers(m, vx as int, vy as int, n as int, idx) && m.pixels[idx];
                assert(drawn_before(m, vx as int, vy as int, n as int, rows as int, 0, w));
            }
            let spec = draw_spec(m, x as int, y as int, n as int);
            assert(self.display.pixels@ =~= spec.pixels);
            assert(self.v@ =~= spec.v);
        }
        self.waiting_for_vblank = true;
        Ok(())
    }

    /// `8XY4`: `VX = VX + VY` modulo 256; `VF` is 1 on a carry, 0 otherwise.
    fn op_8xy4(&mut self, x: usize, y: usize)
        requires
            x < REGISTER_COUNT,
            y < REGISTER_COUNT,
        ensures
            final(self)@ == old(self)@.set_reg_flag(
                x as int,
                add8(old(self).v@[x as int], old(self).v@[y as int]),
                if old(self).v@[x as int] + old(self).v@[y as int] > 255 { 1 } else { 0 },
            ),
    {
        let wide: u16 = self.v[x] as u16 + self.v[y] as u16;
        let carry: u8 = if wide > 255 { 1 } else { 0 };
        self.v[x] = (wide % 256) as u8;
        self.v[VF] = carry;
    }

    /// `8XY5`: `VX = VX - VY` modulo 256; `VF` is 1 when there is no borrow.
    fn op_8xy5(&mut self, x: usize, y: usize)
        requires
            x < REGISTER_COUNT,
            y < REGISTER_COUNT,
        ensures
            final(self)@ == old(self)@.set_reg_flag(
                x as int,
                sub8(old(self).v@[x as int], old(self).v@[y as int]),
                if old(self).v@[x as int] >= old(self).v@[y as int] { 1 } else { 0 },
            ),
    {
        let vx: u8 = self.v[x];
        let vy: u8 = self.v[y];
        self.v[x] = vx.wrapping_sub(vy);
        self.v[VF] = if vx < vy { 0 } else { 1 };
    }

    /// `8XY6`: `VX = VY >> 1`; `VF` gets the bit shifted out.
    fn op_8xy6(&mut self, x: usize, y: usize)
        requires
            x < REGISTER_COUNT,
            y < REGISTER_COUNT,
        ensures
            final(self)@ == old(self)@.set_reg_flag(
                x as int,
                old(self).v@[y as int] / 2,
                old(self).v@[y as int] % 2,
            ),
    {
        let vy: u8 = self.v[y];
        let flag: u8 = vy & 0x01;
        assert(vy & 0x01 == vy % 2) by (bit_vector);
        assert(vy >> 1 == vy / 2) by (bit_vector);
        self.v[x] = vy >> 1;
        self.v[VF] = flag;
    }

    /// `8XY7`: `VX = VY - VX` modulo 256; `VF` is 1 when there is no borrow.
    fn op_8xy7(&mut self, x: usize, y: usize)
        requires
            x < REGISTER_COUNT,
            y < REGISTER_COUNT,
        ensures
            final(self)@ == old(self)@.set_reg_flag(
                x as int,
                sub8(old(self).v@[y as int], old(self).v@[x as int]),
                if old(self).v@[y as int] >= old(self).v@[x as int] { 1 } else { 0 },
            ),
    {
        let vx: u8 = self.v[x];
        let vy: u8 = self.v[y];
        self.v[x] = vy.wrapping_sub(vx);
        self.v[VF] = if vy < vx { 0 } else { 1 };
    }

    /// `8XYE`: `VX = VY << 1` modulo 256; `VF` gets the bit shifted out.
    fn op_8xye(&mut self, x: usize, y: usize)
        requires
            x < REGISTER_COUNT,
            y < REGISTER_COUNT,
        ensures
            final(self)@ == old(self)@.set_reg_flag(
                x as int,
                ((old(self).v@[y as int] * 2) % 256) as u8,
                old(self).v@[y as int] / 128,
            ),
    {
        let vy: u8 = self.v[y];
        let flag: u8 = vy >> 7;
        assert(vy >> 7 == vy / 128) by (bit_vector);
        assert(vy << 1 == ((vy * 2) % 256) as u8) by (bit_vector);
        self.v[x] = vy << 1;
        self.v[VF] = flag;
    }

    /// Group `8`: register-to-register arithmetic and logic.
    fn execute_alu(&mut self, opcode: u16) -> (res: Result<(), Chip8Error>)
        ensures
            final(self)@ == alu_spec(old(self)@, opcode).0,
            res == alu_spec(old(self)@, opcode).1,
    {
        let x: usize = ((opcode / 256) % 16) as usize;
        let y: usize = ((opcode / 16) % 16) as usize;
        let n: u16 = opcode % 16;
        if n == 0x0 {
            self.v[x] = self.v[y];
        } else if n == 0x1 {
            self.v[x] = self.v[x] | self.v[y];
            self.v[VF] = 0;
        } else if n == 0x2 {
            self.v[x] = self.v[x] & self.v[y];
            self.v[VF] = 0;
        } else if n == 0x3 {
            self.v[x] = self.v[x] ^ self.v[y];
            self.v[VF] = 0;
        } else if n == 0x4 {
            self.op_8xy4(x, y);
        } else if n == 0x5 {
            self.op_8xy5(x, y);
        } else if n == 0x6 {
            self.op_8xy6(x, y);
        } else if n == 0x7 {
            self.op_8xy7(x, y);
        } else if n == 0xE {
            self.op_8xye(x, y);
        } else {
            return Err(Chip8Error::InvalidOpcode(opcode));
        }
        Ok(())
    }

    /// `FX33`: stores the decimal digits of `VX` at `I`, `I+1` and `I+2`.
    fn op_fx33(&mut self, x: usize) -> (res: Result<(), Chip8Error>)
        requires
            x < REGISTER_COUNT,
        ensures
            old(self).i + 2 >= MEMORY_SIZE ==> res == Err::<(), Chip8Error>(
                Chip8Error::OutOfBounds { addr: (old(self).i + 2) as usize },
            ) && final(self)@ == old(self)@,
            old(self).i + 2 < MEMORY_SIZE ==> res == Ok::<(), Chip8Error>(()) && final(self)@ == bcd_spec(
                old(self)@,
                x as int,
            ),
    {
        let i: usize = self.i as usize;
        if i + 2 >= MEMORY_SIZE {
            return Err(Chip8Error::OutOfBounds { addr: i + 2 });
        }
        let vx: u8 = self.v[x];
        self.memory[i] = (vx / 100) % 10;
        self.memory[i + 1] = (vx / 10) % 10;
        self.memory[i + 2] = vx % 10;
        Ok(())
    }

    /// `FX55`: stores `V0..=VX` in memory from `I` on, then advances `I` past them.
    fn op_fx55(&mut self, x: usize) -> (res: Result<(), Chip8Error>)
        requires
            x < REGISTER_COUNT,
        ensures
            old(self).i + x >= MEMORY_SIZE ==> res == Err::<(), Chip8Error>(
                Chip8Error::OutOfBounds { addr: (old(self).i + x) as usize },
            ) && final(self)@ == old(self)@,
            old(self).i + x < MEMORY_SIZE ==> res == Ok::<(), Chip8Error>(()) && final(self)@ == store_registers_spec(
                old(self)@,
                x as int,
            ),
    {
        let ghost m = self@;
        let start: usize = self.i as usize;
        if start + x >= MEMORY_SIZE {
            return Err(Chip8Error::OutOfBounds { addr: start + x });
        }
        let mut k: usize = 0;
        while k <= x
            invariant
                k <= x + 1,
                x < REGISTER_COUNT,
                start == m.i,
                start + x < MEMORY_SIZE,
                m.well_shaped(),
                self@ == (Machine {
                    memory: Seq::new(
                        MEMORY_SIZE as nat,
                        |a: int| if start <= a < start + k { m.v[a - start] } else { m.memory[a] },
                    ),
                    ..m
                }),
            decreases x + 1 - k,
        {
            self.memory[start + k] = self.v[k];
            proof {
                let target = Seq::new(
                    MEMORY_SIZE as nat,
                    |a: int| if start <= a < start + k + 1 { m.v[a - start] } else { m.memory[a] },
                );
                assert(self.memory@ =~= target);
            }
            k += 1;
        }
        self.i = self.i.wrapping_add(x as u16 + 1);
        proof {
            let spec = store_registers_spec(m, x as int);
            assert(self.memory@ =~= spec.memory);
        }
        Ok(())
    }

    /// `FX65`: loads `V0..=VX` from memory from `I` on, then advances `I` past them.
    fn op_fx65(&mut self, x: usize) -> (res: Result<(), Chip8Error>)
        requires
            x < REGISTER_COUNT,
        ensures
            old(self).i + x >= MEMORY_SIZE ==> res == Err::<(), Chip8Error>(
                Chip8Error::OutOfBounds { addr: (old(self).i + x) as usize },
            ) && final(self)@ == old(self)@,
            old(self).i + x < MEMORY_SIZE ==> res == Ok::<(), Chip8Error>(()) && final(self)@ == load_registers_spec(
                old(self)@,
                x as int,
            ),
    {
        let ghost m = self@;
        let start: usize = self.i as usize;
        if start + x >= MEMORY_SIZE {
            return Err(Chip8Error::OutOfBounds { addr: start + x });
        }
        let mut k: usize = 0;
        while k <= x
            invariant
                k <= x + 1,
                x < REGISTER_COUNT,
                start == m.i,
                start + x < MEMORY_SIZE,
                m.well_shaped(),
                self@ == (Machine {
                    v: Seq::new(
                        REGISTER_COUNT as nat,
                        |r: int| if r < k { m.memory[start + r] } else { m.v[r] },
                    ),
                    ..m
                }),
            decreases x + 1 - k,
        {
            self.v[k] = self.memory[start + k];
            proof {
                let target = Seq::new(
                    REGISTER_COUNT as nat,
                    |r: int| if r < k + 1 { m.memory[start + r] } else { m.v[r] },
                );
                assert(self.v@ =~= target);
            }
            k += 1;
        }
        self.i = self.i.wrapping_add(x as u16 + 1);
        proof {
            let spec = load_registers_spec(m, x as int);
            assert(self.v@ =~= spec.v);
        }
        Ok(())
    }

    /// `FX0A`: waits until a key is pressed and released, then puts it in `VX`.
    /// While waiting the program counter is moved back so that the
    /// instruction runs again on the next step.
    fn wait_key(&mut self, x: usize)
        requires
            x < REGISTER_COUNT,
            old(self).pc >= 2,
            old(self).waiting_key matches Some(k) ==> k < KEY_COUNT,
        ensures
            final(self)@ == wait_key_spec(old(self)@, x as int),
    {
        if let Some(key) = self.waiting_key {
            if !self.keypad.is_pressed(key as usize) {
                self.v[x] = key;
                self.waiting_key = None;
            } else {
                self.pc -= 2;
            }
        } else if let Some(key) = self.keypad.first_pressed() {
            self.waiting_key = Some(key);
            self.pc -= 2;
        } else {
            self.pc -= 2;
        }
    }

    /// Group `F`: timers, keys, the index register and memory transfers.
    fn execute_misc(&mut self, opcode: u16) -> (res: Result<(), Chip8Error>)
        requires
            old(self).pc >= 2,
            execute_defined(old(self)@, opcode),
            op_group(opcode) == 0xF,
        ensures
            final(self)@ == misc_spec(old(self)@, opcode).0,
            res == misc_spec(old(self)@, opcode).1,
    {
        let x: usize = ((opcode / 256) % 16) as usize;
        let kk: u8 = (opcode % 256) as u8;
        if kk == 0x07 {
            self.v[x] = self.delay_timer;
        } else if kk == 0x0A {
            self.wait_key(x);
        } else if kk == 0x15 {
            self.delay_timer = self.v[x];
        } else if kk == 0x18 {
            self.sound_timer = self.v[x];
        } else if kk == 0x1E {
            self.i = self.i.wrapping_add(self.v[x] as u16);
        } else if kk == 0x29 {
            self.i = (FONT_START + (self.v[x] % 16) as usize * 5) as u16;
        } else if kk == 0x33 {
            return self.op_fx33(x);
        } else if kk == 0x55 {
            return self.op_fx55(x);
        } else if kk == 0x65 {
            return self.op_fx65(x);
        } else {
            return Err(Chip8Error::InvalidOpcode(opcode));
        }
        Ok(())
    }

    /// Every group but `8`, `D` and `F`: flow control, skips, loads and key tests.
    fn execute_control(&mut self, opcode: u16, random: u8) -> (res: Result<(), Chip8Error>)
        requires
            old(self).pc + 2 <= u16::MAX,
            execute_defined(old(self)@, opcode),
            op_group(opcode) != 0x8,
            op_group(opcode) != 0xD,
            op_group(opcode) != 0xF,
        ensures
            final(self)@ == control_spec(old(self)@, opcode, random).0,
            res == control_spec(old(self)@, opcode, random).1,
    {
        let group: u16 = opcode / 4096;
        let x: usize = ((opcode / 256) % 16) as usize;
        let y: usize = ((opcode / 16) % 16) as usize;
        let nnn: u16 = opcode % 4096;
        let kk: u8 = (opcode % 256) as u8;
        if group == 0x0 {
            if opcode == 0x00E0 {
                self.display.clear();
            } else if opcode == 0x00EE {
                if self.sp == 0 {
                    return Err(Chip8Error::StackUnderflow);
                }
                self.sp -= 1;
                self.pc = self.stack[self.sp];
            }
            // Any other `0NNN` (SYS) is ignored.
        } else if group == 0x1 {
            self.pc = nnn;
        } else if group == 0x2 {
            if self.sp >= STACK_SIZE {
                return Err(Chip8Error::StackOverflow);
            }
            self.stack[self.sp] = self.pc;
            self.sp += 1;
            self.pc = nnn;
        } else if group == 0x3 {
            if self.v[x] == kk {
                self.pc += 2;
            }
        } else if group == 0x4 {
            if self.v[x] != kk {
                self.pc += 2;
            }
        } else if group == 0x5 {
            if self.v[x] == self.v[y] {
                self.pc += 2;
            }
        } else if group == 0x6 {
            self.v[x] = kk;
        } else if group == 0x7 {
            self.v[x] = self.v[x].wrapping_add(kk);
        } else if group == 0x9 {
            if self.v[x] != self.v[y] {
                self.pc += 2;
            }
        } else if group == 0xA {
            self.i = nnn;
        } else if group == 0xB {
            self.pc = (self.v[0] as u16).wrapping_add(nnn);
        } else if group == 0xC {
            self.v[x] = random & kk;
        } else if group == 0xE {
            if kk == 0x9E {
                if self.keypad.is_pressed((self.v[x] % 16) as usize) {
                    self.pc += 2;
                }
            } else if kk == 0xA1 {
                if !self.keypad.is_pressed((self.v[x] % 16) as usize) {
                    self.pc += 2;
                }
            } else {
                return Err(Chip8Error::InvalidOpcode(opcode));
            }
        } else {
            return Err(Chip8Error::InvalidOpcode(opcode));
        }
        Ok(())
    }

    /// Executes `opcode`, with `random` as the byte that `CXKK` masks.
    fn execute(&mut self, opcode: u16, random: u8) -> (res: Result<(), Chip8Error>)
        requires
            2 <= old(self).pc <= MEMORY_SIZE,
            execute_defined(old(self)@, opcode),
        ensures
            final(self)@ == execute_spec(old(self)@, opcode, random).0,
            res == execute_spec(old(self)@, opcode, random).1,
    {
        let group: u16 = opcode / 4096;
        if group == 0x8 {
            self.execute_alu(opcode)
        } else if group == 0xD {
            let x: usize = ((opcode / 256) % 16) as usize;
            let y: usize = ((opcode / 16) % 16) as usize;
            let n: u8 = (opcode % 16) as u8;
            self.op_dxyn(x, y, n)
        } else if group == 0xF {
            self.execute_misc(opcode)
        } else {
            self.execute_control(opcode, random)
        }
    }

    /// Reads the big-endian opcode at `pc` and moves `pc` past it.
    fn fetch(&mut self) -> (opcode: u16)
        requires
            old(self).pc + 1 < MEMORY_SIZE,
        ensures
            opcode == opcode_at(old(self)@),
            final(self)@ == old(self)@.fetched(),
    {
        let hi: u16 = self.memory[self.pc as usize] as u16;
        let lo: u16 = self.memory[(self.pc + 1) as usize] as u16;
        self.pc += 2;
        hi * 256 + lo
    }

    /// Runs one instruction, with `random` as the byte that `CXKK` masks.
    /// Nothing happens while the interpreter waits for the next frame.
    pub fn step_with_random(&mut self, random: u8) -> (res: Result<(), Chip8Error>)
        requires
            step_defined(old(self)@),
        ensures
            final(self)@ == step_spec(old(self)@, random).0,
            res == step_spec(old(self)@, random).1,
    {
        if self.waiting_for_vblank {
            return Ok(());
        }
        if self.pc as usize + 1 >= MEMORY_SIZE {
            return Err(Chip8Error::OutOfBounds { addr: self.pc as usize + 1 });
        }
        let opcode: u16 = self.fetch();
        self.execute(opcode, random)
    }

    /// Runs one instruction. Nothing happens while the interpreter waits for
    /// the next frame. `CXKK` masks a byte drawn from the random number
    /// generator; every other instruction behaves as `step_with_random` does
    /// for any byte.
    pub fn step(&mut self) -> (res: Result<(), Chip8Error>)
        requires
            step_defined(old(self)@),
        ensures
            exists|random: u8|
                final(self)@ == (#[trigger] step_spec(old(self)@, random)).0 && res == step_spec(
                    old(self)@,
                    random,
                ).1,
            !next_is_random(old(self)@) ==> final(self)@ == step_spec(old(self)@, 0).0 && res
                == step_spec(old(self)@, 0).1,
    {
        let random: u8 = self.next_random_byte();
        self.step_with_random(random)
    }

    /// The byte that the next step should mask: drawn from the random number
    /// generator when that step executes `CXKK`, zero otherwise.
    pub(crate) fn next_random_byte(&self) -> (random: u8)
        ensures
            !next_is_random(self@) ==> random == 0,
    {
        if self.waiting_for_vblank || self.pc as usize + 1 >= MEMORY_SIZE {
            return 0;
        }
        if self.memory[self.pc as usize] / 16 == 0xC {
            random_byte()
        } else {
            0
        }
    }

    /// Whether `step` and `step_with_random` may be called: a return needs a
    /// stack pointer of at most 16, and waiting for a key needs a remembered
    /// key below 16.
    pub fn can_step(&self) -> (b: bool)
        ensures
            b == step_defined(self@),
    {
        if self.waiting_for_vblank || self.pc as usize + 1 >= MEMORY_SIZE {
            return true;
        }
        let opcode: u16 = self.memory[self.pc as usize] as u16 * 256 + self.memory[(self.pc + 1) as usize] as u16;
        let group: u16 = opcode / 4096;
        let kk: u8 = (opcode % 256) as u8;
        if opcode == 0x00EE {
            self.sp <= STACK_SIZE
        } else if group == 0xF && kk == 0x0A {
            match self.waiting_key {
                Some(k) => (k as usize) < KEY_COUNT,
                None => true,
            }
        } else {
            true
        }
    }

    /// One tick of the 60 Hz timers: each counts down by one unless it is zero.
    pub fn tick_timers(&mut self)
        ensures
            final(self)@ == tick_spec(old(self)@),
    {
        if self.delay_timer > 0 {
            self.delay_timer -= 1;
        }
        if self.sound_timer > 0 {
            self.sound_timer -= 1;
        }
    }

    /// A machine with the font loaded, everything else cleared, and execution
    /// about to start at `ROM_START`.
    pub fn new() -> (c: Self)
        ensures
            c@ == initial_machine(),
    {
        let mut chip8 = Chip8 {
            memory: [0; MEMORY_SIZE],
            v: [0; REGISTER_COUNT],
            i: 0,
            pc: ROM_START as u16,
            stack: [0; STACK_SIZE],
            sp: 0,
            delay_timer: 0,
            sound_timer: 0,
            display: Display::new(),
            keypad: Keypad::new(),
            waiting_for_vblank: false,
            waiting_key: None,
        };
        let font: [u8; FONT_SIZE] = FONT;
        let mut k: usize = 0;
        while k < FONT_SIZE
            invariant
                k <= FONT_SIZE,
                font@ == FONT@,
                chip8.memory@ == Seq::new(
                    MEMORY_SIZE as nat,
                    |a: int| if FONT_START <= a < FONT_START + k { FONT@[a - FONT_START] } else { 0u8 },
                ),
                chip8@ == (Machine { memory: chip8.memory@, ..initial_machine() }),
            decreases FONT_SIZE - k,
        {
            chip8.memory[FONT_START + k] = font[k];
            proof {
                let target = Seq::new(
                    MEMORY_SIZE as nat,
                    |a: int| if FONT_START <= a < FONT_START + k + 1 { FONT@[a - FONT_START] } else { 0u8 },
                );
                assert(chip8.memory@ =~= target);
            }
            k += 1;
        }
        assert(chip8@ =~= initial_machine());
        chip8
    }

    /// Copies `rom` into memory from `ROM_START` on. A ROM longer than
    /// `MAX_ROM_SIZE` is refused with a message and leaves the machine as it was.
    pub fn load_rom(&mut self, rom: &[u8]) -> (res: Result<(), String>)
        ensures
            res is Ok <==> rom@.len() <= MAX_ROM_SIZE,
            res is Ok ==> final(self)@ == rom_loaded(old(self)@, rom@),
            res matches Err(e) ==> final(self)@ == old(self)@ && e@ == "3584 is the maximum size for the ROM"@,
    {
        if rom.len() > MAX_ROM_SIZE {
            return Err("3584 is the maximum size for the ROM".to_owned());
        }
        let ghost m = self@;
        let mut k: usize = 0;
        while k < rom.len()
            invariant
                k <= rom@.len(),
                rom@.len() <= MAX_ROM_SIZE,
                m.well_shaped(),
                self@ == (Machine {
                    memory: Seq::new(
                        MEMORY_SIZE as nat,
                        |a: int| if ROM_START <= a < ROM_START + k { rom@[a - ROM_START] } else { m.memory[a] },
                    ),
                    ..m
                }),
            decreases rom@.len() - k,
        {
            self.memory[ROM_START + k] = rom[k];
            proof {
                let target = Seq::new(
                    MEMORY_SIZE as nat,
                    |a: int| if ROM_START <= a < ROM_START + k + 1 { rom@[a - ROM_START] } else { m.memory[a] },
                );
                assert(self.memory@ =~= target);
            }
            k += 1;
        }
        assert(self.memory@ =~= rom_loaded(m, rom@).memory);
        Ok(())
    }
}

impl Default for Chip8 {
    fn default() -> (c: Self)
        ensures
            c@ == initial_machine(),
    {
        Self::new()
    }
}

} // verus!
