use vstd::prelude::*;

use crate::cpu::Chip8Error;
use crate::display::{blank_screen, PIXEL_COUNT, WIDTH};
use crate::font::{FONT, FONT_SIZE};
use crate::keypad::{first_pressed_key, lemma_first_pressed_key, KEY_COUNT};
use crate::machine::{
    add16, addr_nnn, alu_spec, bcd_spec, byte_kk, draw_instruction_spec, draw_spec, execute_spec,
    sprite_covers, frame_spec, step_defined, steps_spec, load_registers_spec, misc_spec, next_is_random,
    nibble_n, op_group, opcode_at, reg_x, reg_y, rom_loaded, sprite_collides, machine_invariant,
    step_spec, store_registers_spec, tick_spec, Machine, FONT_START, MAX_ROM_SIZE,
    MEMORY_SIZE, REGISTER_COUNT, ROM_START, STACK_SIZE, VF,
};

verus! {

/// Every step keeps `machine_invariant`, whatever its outcome and whatever
/// the random byte.
pub proof fn lemma_step_keeps_invariant(m: Machine, random: u8)
    requires
        machine_invariant(m),
    ensures
        machine_invariant(step_spec(m, random).0),
{
    lemma_first_pressed_key(m.keys);
    let s = step_spec(m, random).0;
    assert(s.memory.len() == MEMORY_SIZE);
    assert(s.pixels.len() == PIXEL_COUNT);
}

/// Under `machine_invariant` every step is defined, so `step` may be called.
pub proof fn lemma_invariant_allows_step(m: Machine)
    requires
        machine_invariant(m),
    ensures
        step_defined(m),
{
}

/// Every frame keeps `machine_invariant`, whatever the keys, the speed and the
/// random bytes.
pub proof fn lemma_frame_keeps_invariant(m: Machine, keys: Seq<bool>, speed: nat, randoms: Seq<u8>)
    requires
        machine_invariant(m),
        keys.len() == KEY_COUNT,
    ensures
        machine_invariant(frame_spec(m, keys, speed, randoms).0),
{
    lemma_steps_keep_invariant(Machine { keys: keys, ..m }, speed, randoms);
}

proof fn lemma_steps_keep_invariant(m: Machine, count: nat, randoms: Seq<u8>)
    requires
        machine_invariant(m),
    ensures
        machine_invariant(steps_spec(m, count, randoms).0),
    decreases count,
{
    if count > 0 {
        lemma_steps_keep_invariant(m, (count - 1) as nat, randoms);
        lemma_step_keeps_invariant(steps_spec(m, (count - 1) as nat, randoms).0, randoms[count - 1]);
    }
}

/// While the interpreter waits for the next frame a step succeeds and changes
/// nothing.
pub proof fn lemma_step_waits_for_vblank(m: Machine, random: u8)
    requires
        m.waiting_for_vblank,
    ensures
        step_spec(m, random) == (m, Ok::<(), Chip8Error>(())),
{
}

/// A step that reports an error changes nothing but the program counter: it
/// is moved past the failing instruction, or left alone when no opcode could
/// be fetched.
pub proof fn lemma_failed_step_changes_only_pc(m: Machine, random: u8)
    requires
        step_spec(m, random).1 is Err,
    ensures
        m.pc + 1 < MEMORY_SIZE ==> step_spec(m, random).0 == m.fetched(),
        m.pc + 1 >= MEMORY_SIZE ==> step_spec(m, random).0 == m,
{
}

/// A step that is not waiting for the frame boundary and finds `pc + 1` in
/// memory executes the big-endian opcode at `pc` on the machine with `pc`
/// moved past it.
pub proof fn lemma_step_executes_fetched_opcode(m: Machine, random: u8)
    requires
        !m.waiting_for_vblank,
        m.pc + 1 < MEMORY_SIZE,
    ensures
        step_spec(m, random) == execute_spec(m.fetched(), opcode_at(m), random),
        opcode_at(m) == m.memory[m.pc as int] * 256 + m.memory[m.pc + 1],
        m.fetched().pc == m.pc + 2,
{
}

/// A step with `pc + 1` outside memory reports it as out of bounds and changes
/// nothing.
pub proof fn lemma_fetch_past_memory(m: Machine, random: u8)
    requires
        !m.waiting_for_vblank,
        m.pc + 1 >= MEMORY_SIZE,
    ensures
        step_spec(m, random) == (m, Err::<(), Chip8Error>(
            Chip8Error::OutOfBounds { addr: (m.pc + 1) as usize },
        )),
{
}

/// `0NNN` other than `00E0` and `00EE` (SYS, a call into native code on the
/// original hardware) succeeds and changes nothing.
pub proof fn lemma_sys_is_ignored(m: Machine, opcode: u16, random: u8)
    requires
        op_group(opcode) == 0x0,
        opcode != 0x00E0,
        opcode != 0x00EE,
    ensures
        execute_spec(m, opcode, random) == (m, Ok::<(), Chip8Error>(())),
{
}

/// What an instruction may touch: the keypad never changes; memory changes
/// only through `FX33` and `FX55`; the screen changes only through group `0`
/// and `DXYN`; `00E0` always succeeds and leaves the screen blank.
pub proof fn lemma_execute_footprint(m: Machine, opcode: u16, random: u8)
    requires
        machine_invariant(m),
    ensures
        execute_spec(m, opcode, random).0.keys == m.keys,
        !(op_group(opcode) == 0xF && (byte_kk(opcode) == 0x33 || byte_kk(opcode) == 0x55))
            ==> execute_spec(m, opcode, random).0.memory == m.memory,
        op_group(opcode) != 0x0 && op_group(opcode) != 0xD ==> execute_spec(
            m,
            opcode,
            random,
        ).0.pixels == m.pixels,
        opcode == 0x00E0 ==> execute_spec(m, opcode, random) == (Machine {
            pixels: blank_screen(),
            ..m
        }, Ok::<(), Chip8Error>(())),
{
    lemma_first_pressed_key(m.keys);
}

/// `2NNN` followed by `00EE` comes back to where the call was made: the
/// program counter, stack pointer and the stack below it, the registers, `I`,
/// memory and screen are all as before the call.
pub proof fn lemma_call_then_return_execute(m: Machine, nnn: u16, r1: u8, r2: u8)
    requires
        machine_invariant(m),
        m.sp < STACK_SIZE,
        nnn < 0x1000,
    ensures
        execute_spec(m, (0x2000 + nnn) as u16, r1).1 is Ok,
        execute_spec(m, (0x2000 + nnn) as u16, r1).0.pc == nnn,
        execute_spec(m, (0x2000 + nnn) as u16, r1).0.sp == m.sp + 1,
        ({
            let called = execute_spec(m, (0x2000 + nnn) as u16, r1).0;
            let back = execute_spec(called, 0x00EE, r2);
            &&& back.1 is Ok
            &&& back.0.pc == m.pc
            &&& back.0.sp == m.sp
            &&& back.0.stack.subrange(0, m.sp as int) == m.stack.subrange(0, m.sp as int)
            &&& back.0.v == m.v
            &&& back.0.i == m.i
            &&& back.0.memory == m.memory
            &&& back.0.pixels == m.pixels
        }),
{
    let called = execute_spec(m, (0x2000 + nnn) as u16, r1).0;
    let back = execute_spec(called, 0x00EE, r2);
    assert(back.0.stack.subrange(0, m.sp as int) =~= m.stack.subrange(0, m.sp as int));
}

/// Only `CXKK` depends on the random byte: any other step has the same
/// outcome whatever byte is supplied.
pub proof fn lemma_only_cxkk_uses_random(m: Machine, r1: u8, r2: u8)
    requires
        !next_is_random(m),
    ensures
        step_spec(m, r1) == step_spec(m, r2),
{
}

/// A subroutine call followed by a return at the called address resumes at
/// the instruction after the call, with the stack pointer as it was.
pub proof fn lemma_call_then_return(m: Machine, r1: u8, r2: u8)
    requires
        machine_invariant(m),
        !m.waiting_for_vblank,
        m.pc + 1 < MEMORY_SIZE,
        m.sp < STACK_SIZE,
        op_group(opcode_at(m)) == 0x2,
        addr_nnn(opcode_at(m)) + 1 < MEMORY_SIZE,
        opcode_at(step_spec(m, r1).0) == 0x00EE,
    ensures
        step_spec(m, r1).1 is Ok,
        step_spec(step_spec(m, r1).0, r2).1 is Ok,
        step_spec(step_spec(m, r1).0, r2).0.pc == m.pc + 2,
        step_spec(step_spec(m, r1).0, r2).0.sp == m.sp,
{
    let called = step_spec(m, r1).0;
    assert(called.stack[m.sp as int] == m.pc + 2);
}

/// `FX0A` with no key held and none remembered leaves the machine exactly as
/// it was, so the same instruction runs again on the next step.
pub proof fn lemma_key_wait_idles(m: Machine, random: u8)
    requires
        machine_invariant(m),
        !m.waiting_for_vblank,
        m.pc + 1 < MEMORY_SIZE,
        op_group(opcode_at(m)) == 0xF,
        byte_kk(opcode_at(m)) == 0x0A,
        m.waiting_key is None,
        forall|k: int| 0 <= k < KEY_COUNT ==> !#[trigger] m.keys[k],
    ensures
        step_spec(m, random) == (m, Ok::<(), Chip8Error>(())),
{
    lemma_first_pressed_key(m.keys);
    assert(first_pressed_key(m.keys) is None);
}

/// `FX0A` waits for a key to be pressed and released: when a key goes down it
/// is remembered and the instruction repeats with the registers untouched;
/// once that key is up again it is stored in `VX` and the program moves on.
pub proof fn lemma_key_wait_press_then_release(
    m: Machine,
    released: Seq<bool>,
    r1: u8,
    r2: u8,
)
    requires
        machine_invariant(m),
        !m.waiting_for_vblank,
        m.pc + 1 < MEMORY_SIZE,
        op_group(opcode_at(m)) == 0xF,
        byte_kk(opcode_at(m)) == 0x0A,
        m.waiting_key is None,
        first_pressed_key(m.keys) is Some,
        released.len() == KEY_COUNT,
        !released[first_pressed_key(m.keys)->0 as int],
    ensures
        step_spec(m, r1).0.pc == m.pc,
        step_spec(m, r1).0.v == m.v,
        step_spec(m, r1).0.waiting_key == first_pressed_key(m.keys),
        step_spec(Machine { keys: released, ..step_spec(m, r1).0 }, r2).0.pc == m.pc + 2,
        step_spec(Machine { keys: released, ..step_spec(m, r1).0 }, r2).0.v[reg_x(opcode_at(m))]
            == first_pressed_key(m.keys)->0,
        step_spec(Machine { keys: released, ..step_spec(m, r1).0 }, r2).0.waiting_key is None,
{
    lemma_first_pressed_key(m.keys);
    let m1 = step_spec(m, r1).0;
    assert(m1.memory == m.memory);
    assert(opcode_at(Machine { keys: released, ..m1 }) == opcode_at(m));
}

/// Whatever register `X` is, after `8XY4` the register `VF` holds the carry of
/// `VX + VY`; for `X` other than `F`, `VX` and the carry together are the
/// exact sum.
pub proof fn lemma_add_with_carry(m: Machine, opcode: u16)
    requires
        m.well_shaped(),
        op_group(opcode) == 0x8,
        nibble_n(opcode) == 0x4,
    ensures
        alu_spec(m, opcode).0.v[VF as int] == if m.v[reg_x(opcode)] + m.v[reg_y(opcode)] > 255 {
            1u8
        } else {
            0u8
        },
        reg_x(opcode) != VF ==> alu_spec(m, opcode).0.v[reg_x(opcode)] + 256 * alu_spec(
            m,
            opcode,
        ).0.v[VF as int] == m.v[reg_x(opcode)] + m.v[reg_y(opcode)],
{
}

/// Whatever register `X` is, after `8XY5` the register `VF` is 1 exactly when
/// `VX >= VY`; for `X` other than `F`, `VX` then holds `VX - VY`, plus 256 when
/// the subtraction borrowed.
pub proof fn lemma_sub_with_borrow(m: Machine, opcode: u16)
    requires
        m.well_shaped(),
        op_group(opcode) == 0x8,
        nibble_n(opcode) == 0x5,
    ensures
        alu_spec(m, opcode).0.v[VF as int] == if m.v[reg_x(opcode)] >= m.v[reg_y(opcode)] {
            1u8
        } else {
            0u8
        },
        reg_x(opcode) != VF ==> alu_spec(m, opcode).0.v[reg_x(opcode)] == m.v[reg_x(opcode)]
            - m.v[reg_y(opcode)] + 256 * (1 - alu_spec(m, opcode).0.v[VF as int]),
{
}

/// The shifts read `VY` and write `VX`. Whatever register `X` is, `VF` ends
/// up holding the bit shifted out of `VY`; for `X` other than `F`, `VX` and
/// that bit together give back `VY`.
pub proof fn lemma_shifts_keep_shifted_bit(m: Machine, opcode: u16)
    requires
        m.well_shaped(),
        op_group(opcode) == 0x8,
        nibble_n(opcode) == 0x6 || nibble_n(opcode) == 0xE,
    ensures
        nibble_n(opcode) == 0x6 ==> alu_spec(m, opcode).0.v[VF as int] == m.v[reg_y(opcode)] % 2,
        nibble_n(opcode) == 0xE ==> alu_spec(m, opcode).0.v[VF as int] == m.v[reg_y(opcode)]
            / 128,
        nibble_n(opcode) == 0x6 && reg_x(opcode) != VF ==> 2 * alu_spec(m, opcode).0.v[reg_x(
            opcode,
        )] + alu_spec(m, opcode).0.v[VF as int] == m.v[reg_y(opcode)],
        nibble_n(opcode) == 0xE && reg_x(opcode) != VF ==> alu_spec(m, opcode).0.v[reg_x(opcode)]
            + 256 * alu_spec(m, opcode).0.v[VF as int] == 2 * m.v[reg_y(opcode)],
{
}

/// `8XY1`, `8XY2` and `8XY3` always leave `VF` at zero.
pub proof fn lemma_logic_ops_reset_flag(m: Machine, opcode: u16)
    requires
        m.well_shaped(),
        op_group(opcode) == 0x8,
        1 <= nibble_n(opcode) <= 3,
    ensures
        alu_spec(m, opcode).1 is Ok,
        alu_spec(m, opcode).0.v[VF as int] == 0,
{
}

/// Drawing changes only pixels inside the sprite's box, clipped at the right
/// and bottom edges: nothing wraps around to the other side of the screen.
pub proof fn lemma_draw_clips_at_edges(m: Machine, x: int, y: int, n: int, idx: int)
    requires
        m.well_shaped(),
        0 <= x < REGISTER_COUNT,
        0 <= y < REGISTER_COUNT,
        0 <= idx < PIXEL_COUNT,
        draw_spec(m, x, y, n).pixels[idx] != m.pixels[idx],
    ensures
        m.v[x] % 64 <= idx % (WIDTH as int) < m.v[x] % 64 + 8,
        m.v[y] % 32 <= idx / (WIDTH as int) < m.v[y] % 32 + n,
{
}

/// Drawing the same sprite twice at the same place (with `X` and `Y` other
/// than `F`, so the position does not move) restores the screen, and the
/// second draw reports a collision exactly when the first one lit a pixel.
pub proof fn lemma_draw_twice_restores_screen(m: Machine, x: int, y: int, n: int)
    requires
        m.well_shaped(),
        0 <= x < REGISTER_COUNT,
        0 <= y < REGISTER_COUNT,
        x != VF,
        y != VF,
    ensures
        draw_spec(draw_spec(m, x, y, n), x, y, n).pixels == m.pixels,
        draw_spec(draw_spec(m, x, y, n), x, y, n).v[VF as int] == if exists|p: int|
            0 <= p < PIXEL_COUNT && !m.pixels[p] && #[trigger] draw_spec(m, x, y, n).pixels[p] {
            1u8
        } else {
            0u8
        },
{
    let m1 = draw_spec(m, x, y, n);
    let vx = (m.v[x] % 64) as int;
    let vy = (m.v[y] % 32) as int;
    assert(m1.v[x] == m.v[x] && m1.v[y] == m.v[y]);
    assert(draw_spec(m1, x, y, n).pixels =~= m.pixels);
    let lit = exists|p: int| 0 <= p < PIXEL_COUNT && !m.pixels[p] && #[trigger] m1.pixels[p];
    if lit {
        let p = choose|p: int| 0 <= p < PIXEL_COUNT && !m.pixels[p] && #[trigger] m1.pixels[p];
        assert(sprite_covers(m, vx, vy, n, p));
        assert(sprite_covers(m1, vx, vy, n, p));
        assert(sprite_collides(m1, vx, vy, n));
    }
    if sprite_collides(m1, vx, vy, n) {
        let p = choose|p: int|
            0 <= p < PIXEL_COUNT && #[trigger] sprite_covers(m1, vx, vy, n, p) && m1.pixels[p];
        assert(sprite_covers(m, vx, vy, n, p));
        assert(m1.pixels[p]);
    }
}

/// A draw touches only the screen, `VF` and the wait for the frame boundary;
/// memory, `I`, the program counter, the stack, the timers, the keypad, the
/// remembered key and every other register stay as they were. A refused draw
/// touches nothing.
pub proof fn lemma_draw_footprint(m: Machine, x: int, y: int, n: int, r: int)
    requires
        m.well_shaped(),
        0 <= x < REGISTER_COUNT,
        0 <= y < REGISTER_COUNT,
        0 <= r < REGISTER_COUNT,
        r != VF,
    ensures
        draw_instruction_spec(m, x, y, n).1 is Err ==> draw_instruction_spec(m, x, y, n).0 == m,
        draw_instruction_spec(m, x, y, n).1 is Ok ==> ({
            let d = draw_instruction_spec(m, x, y, n).0;
            &&& d.waiting_for_vblank
            &&& d.memory == m.memory
            &&& d.i == m.i
            &&& d.pc == m.pc
            &&& d.sp == m.sp
            &&& d.stack == m.stack
            &&& d.delay_timer == m.delay_timer
            &&& d.sound_timer == m.sound_timer
            &&& d.keys == m.keys
            &&& d.waiting_key == m.waiting_key
            &&& d.v[r] == m.v[r]
        }),
{
}

/// Drawing onto a blank screen never reports a collision.
pub proof fn lemma_draw_on_blank_screen(m: Machine, x: int, y: int, n: int)
    requires
        m.well_shaped(),
        m.pixels == blank_screen(),
        0 <= x < REGISTER_COUNT,
        0 <= y < REGISTER_COUNT,
    ensures
        draw_spec(m, x, y, n).v[VF as int] == 0,
{
    let vx = (m.v[x] % 64) as int;
    let vy = (m.v[y] % 32) as int;
    assert(!sprite_collides(m, vx, vy, n));
}

/// `FX33` writes three decimal digits at `I` that spell out `VX`.
pub proof fn lemma_bcd_spells_register(m: Machine, x: int)
    requires
        m.well_shaped(),
        0 <= x < REGISTER_COUNT,
        m.i + 2 < MEMORY_SIZE,
    ensures
        bcd_spec(m, x).memory[m.i as int] < 10,
        bcd_spec(m, x).memory[m.i + 1] < 10,
        bcd_spec(m, x).memory[m.i + 2] < 10,
        100 * bcd_spec(m, x).memory[m.i as int] + 10 * bcd_spec(m, x).memory[m.i + 1] + bcd_spec(
            m,
            x,
        ).memory[m.i + 2] == m.v[x],
{
}

/// Storing `V0..=VX` with `FX55` and loading them back from the same address
/// with `FX65`, whatever the registers held in between, gives back the stored
/// registers, leaves memory as the store left it, and advances `I` past them.
pub proof fn lemma_store_then_load_registers(m: Machine, between: Seq<u8>, x: int)
    requires
        m.well_shaped(),
        between.len() == REGISTER_COUNT,
        0 <= x < REGISTER_COUNT,
        m.i + x < MEMORY_SIZE,
    ensures
        ({
            let stored = store_registers_spec(m, x);
            let back = load_registers_spec(Machine { i: m.i, v: between, ..stored }, x);
            &&& forall|k: int| 0 <= k <= x ==> #[trigger] back.v[k] == m.v[k]
            &&& back.i == add16(m.i, (x + 1) as u16)
            &&& back.memory == stored.memory
        }),
{
}

/// `FX29` points `I` at the five-byte glyph of the digit in the low four bits
/// of `VX`, as long as the font is still in place.
pub proof fn lemma_font_glyph_address(m: Machine, opcode: u16, row: int)
    requires
        m.well_shaped(),
        op_group(opcode) == 0xF,
        byte_kk(opcode) == 0x29,
        forall|k: int|
            0 <= k < FONT_SIZE ==> #[trigger] m.memory[FONT_START + k] == FONT@[k],
        0 <= row < 5,
    ensures
        misc_spec(m, opcode).0.memory[misc_spec(m, opcode).0.i + row] == FONT@[5 * (
        m.v[reg_x(opcode)] % 16) + row],
{
    let k = 5 * (m.v[reg_x(opcode)] % 16) + row;
    assert(m.memory[FONT_START + k] == FONT@[k]);
}

/// Loading a ROM puts its bytes at `ROM_START` and leaves the memory below,
/// the font among it, untouched; the largest ROM accepted fills memory exactly
/// to its end.
pub proof fn lemma_rom_placement(m: Machine, rom: Seq<u8>, a: int)
    requires
        m.well_shaped(),
        rom.len() <= MAX_ROM_SIZE,
        0 <= a < MEMORY_SIZE,
    ensures
        a < ROM_START ==> rom_loaded(m, rom).memory[a] == m.memory[a],
        ROM_START <= a < ROM_START + rom.len() ==> rom_loaded(m, rom).memory[a] == rom[a
            - ROM_START],
        rom_loaded(m, rom).memory.len() == MEMORY_SIZE,
        ROM_START + MAX_ROM_SIZE == MEMORY_SIZE,
{
}

/// The machine after `count` ticks of the timers.
pub open spec fn ticked(m: Machine, count: nat) -> Machine
    decreases count,
{
    if count == 0 {
        m
    } else {
        tick_spec(ticked(m, (count - 1) as nat))
    }
}

/// Each timer counts down by one per tick and stops at zero: after `count`
/// ticks it reads its old value minus `count`, or zero.
pub proof fn lemma_timers_count_down(m: Machine, count: nat)
    ensures
        ticked(m, count).delay_timer == if m.delay_timer >= count {
            m.delay_timer - count
        } else {
            0
        },
        ticked(m, count).sound_timer == if m.sound_timer >= count {
            m.sound_timer - count
        } else {
            0
        },
    decreases count,
{
    if count > 0 {
        lemma_timers_count_down(m, (count - 1) as nat);
    }
}

/// A step never changes the keypad.
pub proof fn lemma_step_keeps_keys(m: Machine, random: u8)
    requires
        machine_invariant(m),
    ensures
        step_spec(m, random).0.keys == m.keys,
{
    if !m.waiting_for_vblank && m.pc + 1 < MEMORY_SIZE {
        lemma_execute_footprint(m.fetched(), opcode_at(m), random);
    }
}

proof fn lemma_steps_keep_keys_and_count(m: Machine, count: nat, randoms: Seq<u8>)
    requires
        machine_invariant(m),
    ensures
        steps_spec(m, count, randoms).0.keys == m.keys,
        steps_spec(m, count, randoms).1.len() <= count,
    decreases count,
{
    if count > 0 {
        let before = steps_spec(m, (count - 1) as nat, randoms);
        lemma_steps_keep_keys_and_count(m, (count - 1) as nat, randoms);
        lemma_steps_keep_invariant(m, (count - 1) as nat, randoms);
        lemma_step_keeps_keys(before.0, randoms[count - 1]);
    }
}

/// A frame leaves the keypad in the state it was given, ends the wait for the
/// frame boundary, and reports at most one error per instruction run; a frame
/// of no instructions only takes the keys, counts each timer down by one
/// (stopping at zero) and ends the wait.
pub proof fn lemma_frame_basics(m: Machine, keys: Seq<bool>, speed: nat, randoms: Seq<u8>)
    requires
        machine_invariant(m),
        keys.len() == KEY_COUNT,
    ensures
        frame_spec(m, keys, speed, randoms).0.keys == keys,
        !frame_spec(m, keys, speed, randoms).0.waiting_for_vblank,
        frame_spec(m, keys, speed, randoms).1.len() <= speed,
        speed == 0 ==> frame_spec(m, keys, speed, randoms).0 == (Machine {
            keys: keys,
            delay_timer: if m.delay_timer > 0 {
                (m.delay_timer - 1) as u8
            } else {
                0
            },
            sound_timer: if m.sound_timer > 0 {
                (m.sound_timer - 1) as u8
            } else {
                0
            },
            waiting_for_vblank: false,
            ..m
        }),
{
    lemma_steps_keep_keys_and_count(Machine { keys: keys, ..m }, speed, randoms);
}

} // verus!
