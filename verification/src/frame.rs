use vstd::prelude::*;

use crate::cpu::{Chip8, Chip8Error};
use crate::display::{HEIGHT, PIXEL_COUNT, WIDTH};
use crate::keypad::KEY_COUNT;
use crate::laws::{lemma_invariant_allows_step, lemma_step_keeps_invariant};
use crate::machine::{frame_spec, machine_invariant, step_spec, steps_spec, Machine};

verus! {

/// Colour of a lit pixel in the frame buffer.
pub const LIT: u32 = 0xFFFFFF;

/// Colour of a dark pixel in the frame buffer.
pub const DARK: u32 = 0x000000;

/// `steps_spec` reads only the first `count` random bytes.
proof fn lemma_steps_use_prefix(m: Machine, count: nat, a: Seq<u8>, b: Seq<u8>)
    requires
        count <= a.len(),
        count <= b.len(),
        forall|k: int| 0 <= k < count ==> #[trigger] a[k] == b[k],
    ensures
        steps_spec(m, count, a) == steps_spec(m, count, b),
    decreases count,
{
    if count > 0 {
        lemma_steps_use_prefix(m, (count - 1) as nat, a, b);
    }
}

/// Running `count + 1` steps with `used` followed by `r` is running `count`
/// steps with `used` and then one step with `r`.
proof fn lemma_next_step(m: Machine, count: nat, used: Seq<u8>, r: u8)
    requires
        used.len() == count,
    ensures
        steps_spec(m, count + 1, used.push(r)).0 == step_spec(steps_spec(m, count, used).0, r).0,
        steps_spec(m, count + 1, used.push(r)).1 == match step_spec(
            steps_spec(m, count, used).0,
            r,
        ).1 {
            Ok(_) => steps_spec(m, count, used).1,
            Err(e) => steps_spec(m, count, used).1.push(e),
        },
{
    lemma_steps_use_prefix(m, count, used, used.push(r));
}

impl Chip8 {
    /// Runs one video frame with the given random bytes: takes the keypad
    /// state `keys`, runs `speed` instructions (the `k`-th masking
    /// `randoms[k]` if it is `CXKK`), ticks the timers once and ends the wait
    /// for the frame boundary. The errors of failed instructions are returned
    /// in order; execution goes on after each.
    pub fn run_frame_with_random(
        &mut self,
        keys: &[bool; KEY_COUNT],
        speed: usize,
        randoms: &Vec<u8>,
    ) -> (errors: Vec<Chip8Error>)
        requires
            machine_invariant(old(self)@),
            randoms@.len() >= speed,
        ensures
            final(self)@ == frame_spec(old(self)@, keys@, speed as nat, randoms@).0,
            errors@ == frame_spec(old(self)@, keys@, speed as nat, randoms@).1,
    {
        self.keypad.keys = *keys;
        let ghost start = self@;
        let mut errors: Vec<Chip8Error> = Vec::new();
        let mut k: usize = 0;
        while k < speed
            invariant
                k <= speed,
                speed <= randoms@.len(),
                start == (Machine { keys: keys@, ..old(self)@ }),
                machine_invariant(self@),
                self@ == steps_spec(start, k as nat, randoms@).0,
                errors@ == steps_spec(start, k as nat, randoms@).1,
            decreases speed - k,
        {
            proof {
                lemma_invariant_allows_step(self@);
                lemma_step_keeps_invariant(self@, randoms@[k as int]);
            }
            let res = self.step_with_random(randoms[k]);
            match res {
                Ok(()) => {},
                Err(e) => errors.push(e),
            }
            k += 1;
        }
        self.tick_timers();
        self.waiting_for_vblank = false;
        errors
    }

    /// Runs one video frame: takes the keypad state `keys`, runs `speed`
    /// instructions, ticks the timers once and ends the wait for the frame
    /// boundary. `CXKK` masks bytes drawn from the random number generator;
    /// the outcome is that of `run_frame_with_random` for some bytes. The
    /// errors of failed instructions are returned in order; execution goes on
    /// after each.
    pub fn run_frame(&mut self, keys: &[bool; KEY_COUNT], speed: usize) -> (errors: Vec<Chip8Error>)
        requires
            machine_invariant(old(self)@),
        ensures
            exists|randoms: Seq<u8>|
                randoms.len() == speed && final(self)@ == (#[trigger] frame_spec(
                    old(self)@,
                    keys@,
                    speed as nat,
                    randoms,
                )).0 && errors@ == frame_spec(old(self)@, keys@, speed as nat, randoms).1,
    {
        self.keypad.keys = *keys;
        let ghost start = self@;
        let ghost mut used: Seq<u8> = Seq::empty();
        let mut errors: Vec<Chip8Error> = Vec::new();
        let mut k: usize = 0;
        while k < speed
            invariant
                k <= speed,
                used.len() == k,
                start == (Machine { keys: keys@, ..old(self)@ }),
                machine_invariant(self@),
                self@ == steps_spec(start, k as nat, used).0,
                errors@ == steps_spec(start, k as nat, used).1,
            decreases speed - k,
        {
            proof {
                lemma_invariant_allows_step(self@);
            }
            let random: u8 = self.next_random_byte();
            proof {
                lemma_step_keeps_invariant(self@, random);
                lemma_next_step(start, k as nat, used, random);
                used = used.push(random);
            }
            let res = self.step_with_random(random);
            match res {
                Ok(()) => {},
                Err(e) => errors.push(e),
            }
            k += 1;
        }
        self.tick_timers();
        self.waiting_for_vblank = false;
        assert(self@ == frame_spec(old(self)@, keys@, speed as nat, used).0);
        errors
    }
}

/// The frame-buffer colour of the screen pixel that buffer cell (`row`, `col`)
/// shows when each pixel is drawn as a `scale` x `scale` block.
pub open spec fn scaled_colour(pixels: Seq<bool>, scale: int, row: int, col: int) -> u32 {
    if pixels[(row / scale) * WIDTH + col / scale] {
        LIT
    } else {
        DARK
    }
}

proof fn lemma_earlier_rows(r: int, c: int, row: int, w: int)
    requires
        0 <= r < row,
        0 <= c < w,
    ensures
        0 <= r * w + c < row * w,
{
    assert(r * w + c < row * w) by (nonlinear_arith)
        requires
            0 <= r < row,
            0 <= c < w,
    ;
    assert(0 <= r * w) by (nonlinear_arith)
        requires
            0 <= r,
            0 <= c < w,
    ;
}

proof fn lemma_block_of(v: int, bound: int, scale: int)
    requires
        0 <= v < bound * scale,
        scale > 0,
    ensures
        0 <= v / scale < bound,
{
    assert(v / scale < bound) by (nonlinear_arith)
        requires
            0 <= v < bound * scale,
            scale > 0,
    ;
}

/// The screen as a row-major frame buffer of `WIDTH * scale` by
/// `HEIGHT * scale` cells, each pixel drawn as a `scale` x `scale` block of
/// `LIT` or `DARK`.
pub fn render(pixels: &[bool; PIXEL_COUNT], scale: usize) -> (buf: Vec<u32>)
    requires
        scale > 0,
        PIXEL_COUNT * scale * scale <= usize::MAX,
    ensures
        buf@.len() == PIXEL_COUNT * scale * scale,
        forall|row: int, col: int|
            0 <= row < HEIGHT * scale && 0 <= col < WIDTH * scale ==> #[trigger] buf@[row * (WIDTH
                * scale) + col] == scaled_colour(pixels@, scale as int, row, col),
{
    assert(WIDTH * scale <= PIXEL_COUNT * scale * scale) by (nonlinear_arith)
        requires
            scale > 0,
    ;
    let width: usize = WIDTH * scale;
    let height: usize = HEIGHT * scale;
    assert(height * width == PIXEL_COUNT * scale * scale) by (nonlinear_arith)
        requires
            height == HEIGHT * scale,
            width == WIDTH * scale,
    ;
    let mut buf: Vec<u32> = Vec::new();
    let mut row: usize = 0;
    while row < height
        invariant
            scale > 0,
            width == WIDTH * scale,
            height == HEIGHT * scale,
            height * width == PIXEL_COUNT * scale * scale,
            PIXEL_COUNT * scale * scale <= usize::MAX,
            row <= height,
            buf@.len() == row * width,
            forall|r: int, c: int|
                0 <= r < row && 0 <= c < width ==> #[trigger] buf@[r * width + c] == scaled_colour(
                    pixels@,
                    scale as int,
                    r,
                    c,
                ),
        decreases height - row,
    {
        assert(row * width + width <= height * width) by (nonlinear_arith)
            requires
                row < height,
        ;
        let mut col: usize = 0;
        while col < width
            invariant
                scale > 0,
                width == WIDTH * scale,
                height == HEIGHT * scale,
                row < height,
                row * width + width <= height * width,
                height * width <= usize::MAX,
                col <= width,
                buf@.len() == row * width + col,
                forall|r: int, c: int|
                    0 <= r < row && 0 <= c < width ==> #[trigger] buf@[r * width + c]
                        == scaled_colour(pixels@, scale as int, r, c),
                forall|c: int|
                    0 <= c < col ==> #[trigger] buf@[row * width + c] == scaled_colour(
                        pixels@,
                        scale as int,
                        row as int,
                        c,
                    ),
            decreases width - col,
        {
            proof {
                lemma_block_of(row as int, HEIGHT as int, scale as int);
                lemma_block_of(col as int, WIDTH as int, scale as int);
            }
            let index: usize = (row / scale) * WIDTH + col / scale;
            let colour: u32 = if pixels[index] {
                LIT
            } else {
                DARK
            };
            let ghost old_buf = buf@;
            buf.push(colour);
            proof {
                assert forall|r: int, c: int|
                    0 <= r < row && 0 <= c < width implies #[trigger] buf@[r * width + c]
                        == scaled_colour(pixels@, scale as int, r, c) by {
                    lemma_earlier_rows(r, c, row as int, width as int);
                    assert(buf@[r * width + c] == old_buf[r * width + c]);
                }
                assert forall|c: int| 0 <= c < col + 1 implies #[trigger] buf@[row * width + c]
                    == scaled_colour(pixels@, scale as int, row as int, c) by {
                    if c < col {
                        assert(buf@[row * width + c] == old_buf[row * width + c]);
                    }
                }
            }
            col += 1;
        }
        proof {
            assert forall|r: int, c: int|
                0 <= r < row + 1 && 0 <= c < width implies #[trigger] buf@[r * width + c]
                    == scaled_colour(pixels@, scale as int, r, c) by {
                if r == row {
                    assert(buf@[row * width + c] == scaled_colour(pixels@, scale as int, r, c));
                }
            }
            assert((row + 1) * width == row * width + width) by (nonlinear_arith);
        }
        row += 1;
    }
    buf
}

} // verus!
