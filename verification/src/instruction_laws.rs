use vstd::prelude::*;

use crate::cpu::Chip8Error;
use crate::display::{HEIGHT, PIXEL_COUNT, WIDTH};
use crate::font::{FONT, FONT_SIZE};
use crate::keypad::KEY_COUNT;
use crate::machine::{
    initial_machine, sprite_collides, sprite_covers, Machine, MEMORY_SIZE,
    addr_nnn, byte_kk, execute_spec, machine_invariant, nibble_n, op_group, reg_x, reg_y,
    FONT_START, VF,
};

verus! {

// The laws below say what each instruction does in terms of the machine
// before it and the fields of the opcode, each field read from the opcode by
// masks and shifts.

/// Whether bit `b` (counted from the least significant) of `v` is set.
pub open spec fn bit_set(v: u8, b: u8) -> bool {
    (v >> b) & 1u8 == 1u8
}

/// The opcode's fields are its hexadecimal digits: the group is the highest
/// digit, `X` the second, `Y` the third, `N` the lowest, `KK` the low byte and
/// `NNN` the low twelve bits.
pub proof fn lemma_opcode_fields(opcode: u16)
    ensures
        op_group(opcode) == opcode >> 12u16,
        reg_x(opcode) == ((opcode >> 8u16) & 0xFu16) as int,
        reg_y(opcode) == ((opcode >> 4u16) & 0xFu16) as int,
        nibble_n(opcode) == opcode & 0xFu16,
        byte_kk(opcode) == (opcode & 0xFFu16) as u8,
        addr_nnn(opcode) == opcode & 0xFFFu16,
{
    assert(opcode >> 12u16 == opcode / 4096) by (bit_vector);
    assert((opcode >> 8u16) & 0xFu16 == (opcode / 256) % 16) by (bit_vector);
    assert((opcode >> 4u16) & 0xFu16 == (opcode / 16) % 16) by (bit_vector);
    assert(opcode & 0xFu16 == opcode % 16) by (bit_vector);
    assert(opcode & 0xFFu16 == opcode % 256) by (bit_vector);
    assert(opcode & 0xFFFu16 == opcode % 4096) by (bit_vector);
}

/// `1NNN` jumps to `NNN` and changes nothing else.
pub proof fn lemma_jump(m: Machine, opcode: u16, random: u8)
    requires
        opcode >> 12u16 == 0x1,
    ensures
        execute_spec(m, opcode, random) == (Machine { pc: opcode & 0xFFFu16, ..m }, Ok::<
            (),
            Chip8Error,
        >(())),
{
    lemma_opcode_fields(opcode);
}

/// `BNNN` jumps to `NNN` plus `V0` (not `VX`), modulo 65536, and changes
/// nothing else.
pub proof fn lemma_jump_with_offset(m: Machine, opcode: u16, random: u8)
    requires
        machine_invariant(m),
        opcode >> 12u16 == 0xB,
    ensures
        execute_spec(m, opcode, random) == (Machine {
            pc: ((m.v[0] + (opcode & 0xFFFu16)) % 65536) as u16,
            ..m
        }, Ok::<(), Chip8Error>(())),
{
    lemma_opcode_fields(opcode);
}

/// `2NNN` pushes the address of the next instruction, jumps to `NNN`, and
/// leaves the registers, `I`, memory and the screen alone; with a full stack it
/// is refused and nothing changes.
pub proof fn lemma_call(m: Machine, opcode: u16, random: u8)
    requires
        machine_invariant(m),
        opcode >> 12u16 == 0x2,
    ensures
        m.sp < 16 ==> execute_spec(m, opcode, random) == (Machine {
            stack: m.stack.update(m.sp as int, m.pc),
            sp: (m.sp + 1) as usize,
            pc: opcode & 0xFFFu16,
            ..m
        }, Ok::<(), Chip8Error>(())),
        m.sp >= 16 ==> execute_spec(m, opcode, random) == (m, Err::<(), Chip8Error>(
            Chip8Error::StackOverflow,
        )),
{
    lemma_opcode_fields(opcode);
}

/// The conditional skips compare the register named by the opcode's second
/// digit (`X`) with its low byte (`3XKK`, `4XKK`) or with the register named by
/// its third digit (`5XY0`, `9XY0`): the next instruction is skipped exactly
/// when the comparison holds, and nothing else changes.
pub proof fn lemma_conditional_skips(m: Machine, opcode: u16, random: u8)
    requires
        machine_invariant(m),
        m.pc + 2 <= 0xFFFF,
        3 <= opcode >> 12u16 <= 5 || opcode >> 12u16 == 9,
    ensures
        ({
            let vx = m.v[((opcode >> 8u16) & 0xFu16) as int];
            let vy = m.v[((opcode >> 4u16) & 0xFu16) as int];
            let kk = (opcode & 0xFFu16) as u8;
            let group = opcode >> 12u16;
            let skip = if group == 3 {
                vx == kk
            } else if group == 4 {
                vx != kk
            } else if group == 5 {
                vx == vy
            } else {
                vx != vy
            };
            execute_spec(m, opcode, random) == (Machine {
                pc: if skip {
                    (m.pc + 2) as u16
                } else {
                    m.pc
                },
                ..m
            }, Ok::<(), Chip8Error>(()))
        }),
{
    lemma_opcode_fields(opcode);
}

/// `6XKK` puts `KK` in `VX` and changes nothing else.
pub proof fn lemma_load_byte(m: Machine, opcode: u16, random: u8)
    requires
        machine_invariant(m),
        opcode >> 12u16 == 0x6,
    ensures
        execute_spec(m, opcode, random) == (Machine {
            v: m.v.update(((opcode >> 8u16) & 0xFu16) as int, (opcode & 0xFFu16) as u8),
            ..m
        }, Ok::<(), Chip8Error>(())),
{
    lemma_opcode_fields(opcode);
}

/// `7XKK` adds `KK` to `VX` modulo 256, leaves `VF` (for `X` other than `F`)
/// and everything else alone.
pub proof fn lemma_add_byte(m: Machine, opcode: u16, random: u8)
    requires
        machine_invariant(m),
        opcode >> 12u16 == 0x7,
    ensures
        ({
            let x = ((opcode >> 8u16) & 0xFu16) as int;
            execute_spec(m, opcode, random) == (Machine {
                v: m.v.update(x, ((m.v[x] + (opcode & 0xFFu16)) % 256) as u8),
                ..m
            }, Ok::<(), Chip8Error>(()))
        }),
{
    lemma_opcode_fields(opcode);
    assert(opcode & 0xFFu16 < 256) by (bit_vector);
}

/// `8XY0` copies `VY` into `VX` and changes nothing else.
pub proof fn lemma_copy_register(m: Machine, opcode: u16, random: u8)
    requires
        machine_invariant(m),
        opcode >> 12u16 == 0x8,
        opcode & 0xFu16 == 0x0,
    ensures
        execute_spec(m, opcode, random) == (Machine {
            v: m.v.update(
                ((opcode >> 8u16) & 0xFu16) as int,
                m.v[((opcode >> 4u16) & 0xFu16) as int],
            ),
            ..m
        }, Ok::<(), Chip8Error>(())),
{
    lemma_opcode_fields(opcode);
}

/// `8XY1`, `8XY2` and `8XY3` combine `VX` and `VY` bit by bit: a bit of the
/// new `VX` (for `X` other than `F`) is set exactly when it is set in either
/// operand (`8XY1`, OR), in both (`8XY2`, AND), or in exactly one (`8XY3`,
/// XOR). `VF` becomes 0, and no other register changes.
pub proof fn lemma_bitwise_ops(m: Machine, opcode: u16, random: u8)
    requires
        machine_invariant(m),
        opcode >> 12u16 == 0x8,
        1 <= opcode & 0xFu16 <= 3,
        (opcode >> 8u16) & 0xFu16 != 0xF,
    ensures
        ({
            let x = ((opcode >> 8u16) & 0xFu16) as int;
            let vx = m.v[x];
            let vy = m.v[((opcode >> 4u16) & 0xFu16) as int];
            let after = execute_spec(m, opcode, random);
            let r = after.0.v[x];
            &&& after.1 is Ok
            &&& forall|b: u8|
                b < 8 ==> #[trigger] bit_set(r, b) == if opcode & 0xFu16 == 1 {
                    bit_set(vx, b) || bit_set(vy, b)
                } else if opcode & 0xFu16 == 2 {
                    bit_set(vx, b) && bit_set(vy, b)
                } else {
                    bit_set(vx, b) != bit_set(vy, b)
                }
            &&& after.0.v[VF as int] == 0
            &&& forall|k: int| 0 <= k < 15 && k != x ==> #[trigger] after.0.v[k] == m.v[k]
            &&& after.0 == (Machine { v: after.0.v, ..m })
        }),
{
    lemma_opcode_fields(opcode);
    let x = ((opcode >> 8u16) & 0xFu16) as int;
    let vx = m.v[x];
    let vy = m.v[((opcode >> 4u16) & 0xFu16) as int];
    let r = execute_spec(m, opcode, random).0.v[x];
    if opcode & 0xFu16 == 1 {
        assert(r == vx | vy);
        assert forall|b: u8| b < 8 implies #[trigger] bit_set(vx | vy, b) == (bit_set(vx, b)
            || bit_set(vy, b)) by {
            assert(((vx | vy) >> b) & 1u8 == 1u8 <==> ((vx >> b) & 1u8 == 1u8 || (vy >> b) & 1u8
                == 1u8)) by (bit_vector)
                requires
                    b < 8,
            ;
        }
    } else if opcode & 0xFu16 == 2 {
        assert(r == vx & vy);
        assert forall|b: u8| b < 8 implies #[trigger] bit_set(vx & vy, b) == (bit_set(vx, b)
            && bit_set(vy, b)) by {
            assert(((vx & vy) >> b) & 1u8 == 1u8 <==> ((vx >> b) & 1u8 == 1u8 && (vy >> b) & 1u8
                == 1u8)) by (bit_vector)
                requires
                    b < 8,
            ;
        }
    } else {
        assert(r == vx ^ vy);
        assert forall|b: u8| b < 8 implies #[trigger] bit_set(vx ^ vy, b) == (bit_set(vx, b)
            != bit_set(vy, b)) by {
            assert(((vx ^ vy) >> b) & 1u8 == 1u8 <==> ((vx >> b) & 1u8 == 1u8 != ((vy >> b) & 1u8
                == 1u8))) by (bit_vector)
                requires
                    b < 8,
            ;
        }
    }
}

/// `8XY7` sets `VX` (for `X` other than `F`) to `VY - VX`, plus 256 when that
/// borrows; whatever `X` is, `VF` is 1 exactly when `VY >= VX`.
pub proof fn lemma_reverse_subtract(m: Machine, opcode: u16, random: u8)
    requires
        machine_invariant(m),
        opcode >> 12u16 == 0x8,
        opcode & 0xFu16 == 0x7,
    ensures
        ({
            let x = ((opcode >> 8u16) & 0xFu16) as int;
            let vx = m.v[x];
            let vy = m.v[((opcode >> 4u16) & 0xFu16) as int];
            let after = execute_spec(m, opcode, random).0;
            &&& after.v[VF as int] == if vy >= vx { 1u8 } else { 0u8 }
            &&& x != VF ==> after.v[x] == vy - vx + 256 * (1 - after.v[VF as int])
        }),
{
    lemma_opcode_fields(opcode);
}

/// `CXKK` puts in `VX` the bits set both in the random byte and in `KK`, and
/// changes nothing else.
pub proof fn lemma_random_masked(m: Machine, opcode: u16, random: u8)
    requires
        machine_invariant(m),
        opcode >> 12u16 == 0xC,
    ensures
        ({
            let x = ((opcode >> 8u16) & 0xFu16) as int;
            let kk = (opcode & 0xFFu16) as u8;
            let after = execute_spec(m, opcode, random);
            &&& after.1 is Ok
            &&& forall|b: u8|
                b < 8 ==> #[trigger] bit_set(after.0.v[x], b) == (bit_set(random, b) && bit_set(
                    kk,
                    b,
                ))
            &&& after.0 == (Machine { v: m.v.update(x, after.0.v[x]), ..m })
        }),
{
    lemma_opcode_fields(opcode);
    let kk = (opcode & 0xFFu16) as u8;
    assert forall|b: u8| b < 8 implies #[trigger] bit_set(random & kk, b) == (bit_set(random, b)
        && bit_set(kk, b)) by {
        assert(((random & kk) >> b) & 1u8 == 1u8 <==> ((random >> b) & 1u8 == 1u8 && (kk >> b)
            & 1u8 == 1u8)) by (bit_vector)
            requires
                b < 8,
        ;
    }
}

/// `ANNN` sets `I` to `NNN` and changes nothing else.
pub proof fn lemma_set_index(m: Machine, opcode: u16, random: u8)
    requires
        opcode >> 12u16 == 0xA,
    ensures
        execute_spec(m, opcode, random) == (Machine { i: opcode & 0xFFFu16, ..m }, Ok::<
            (),
            Chip8Error,
        >(())),
{
    lemma_opcode_fields(opcode);
}

/// `EX9E` skips the next instruction exactly when the key numbered by the low
/// four bits of `VX` (one of the sixteen keys) is held, and `EXA1` exactly when
/// it is not; nothing else changes.
pub proof fn lemma_key_skips(m: Machine, opcode: u16, random: u8)
    requires
        machine_invariant(m),
        m.pc + 2 <= 0xFFFF,
        opcode >> 12u16 == 0xE,
        opcode & 0xFFu16 == 0x9E || opcode & 0xFFu16 == 0xA1,
    ensures
        ({
            let key = (m.v[((opcode >> 8u16) & 0xFu16) as int] & 0xFu8) as int;
            let held = m.keys[key];
            let skip = if opcode & 0xFFu16 == 0x9E {
                held
            } else {
                !held
            };
            &&& 0 <= key < KEY_COUNT
            &&& execute_spec(m, opcode, random) == (Machine {
                pc: if skip {
                    (m.pc + 2) as u16
                } else {
                    m.pc
                },
                ..m
            }, Ok::<(), Chip8Error>(()))
        }),
{
    lemma_opcode_fields(opcode);
    let vx = m.v[((opcode >> 8u16) & 0xFu16) as int];
    assert(vx & 0xFu8 == vx % 16) by (bit_vector);
}

/// `FX07` copies the delay timer (not the sound timer) into `VX`; `FX15` sets
/// the delay timer and `FX18` the sound timer to `VX`. Nothing else changes.
pub proof fn lemma_timer_transfers(m: Machine, opcode: u16, random: u8)
    requires
        machine_invariant(m),
        opcode >> 12u16 == 0xF,
        opcode & 0xFFu16 == 0x07 || opcode & 0xFFu16 == 0x15 || opcode & 0xFFu16 == 0x18,
    ensures
        ({
            let x = ((opcode >> 8u16) & 0xFu16) as int;
            let kk = opcode & 0xFFu16;
            let expected = if kk == 0x07 {
                Machine { v: m.v.update(x, m.delay_timer), ..m }
            } else if kk == 0x15 {
                Machine { delay_timer: m.v[x], ..m }
            } else {
                Machine { sound_timer: m.v[x], ..m }
            };
            execute_spec(m, opcode, random) == (expected, Ok::<(), Chip8Error>(()))
        }),
{
    lemma_opcode_fields(opcode);
}

/// Setting the delay timer with `FX15` and reading it back at once with `FY07`
/// gives `VX` in `VY`, whatever the sound timer holds.
pub proof fn lemma_delay_timer_round_trip(m: Machine, set: u16, get: u16, r1: u8, r2: u8)
    requires
        machine_invariant(m),
        set >> 12u16 == 0xF,
        set & 0xFFu16 == 0x15,
        get >> 12u16 == 0xF,
        get & 0xFFu16 == 0x07,
    ensures
        execute_spec(execute_spec(m, set, r1).0, get, r2).0.v[((get >> 8u16) & 0xFu16) as int]
            == m.v[((set >> 8u16) & 0xFu16) as int],
{
    lemma_opcode_fields(set);
    lemma_opcode_fields(get);
}

/// `FX1E` adds `VX` to `I` modulo 65536; `FX29` points `I` at the five-byte
/// glyph, stored from `FONT_START` on, of the digit in the low four bits of
/// `VX`. Nothing else changes.
pub proof fn lemma_index_arithmetic(m: Machine, opcode: u16, random: u8)
    requires
        machine_invariant(m),
        opcode >> 12u16 == 0xF,
        opcode & 0xFFu16 == 0x1E || opcode & 0xFFu16 == 0x29,
    ensures
        ({
            let vx = m.v[((opcode >> 8u16) & 0xFu16) as int];
            let i = if opcode & 0xFFu16 == 0x1E {
                ((m.i + vx) % 65536) as u16
            } else {
                (FONT_START + 5 * (vx & 0xFu8)) as u16
            };
            execute_spec(m, opcode, random) == (Machine { i: i, ..m }, Ok::<(), Chip8Error>(()))
        }),
{
    lemma_opcode_fields(opcode);
    let vx = m.v[((opcode >> 8u16) & 0xFu16) as int];
    assert(vx & 0xFu8 == vx % 16) by (bit_vector);
}

/// `DXYN` XORs the sprite onto the screen with the most significant bit of
/// each sprite byte leftmost: for row `r` below `N` and column `c` below 8 that
/// land on the screen, the pixel at (`VX mod 64 + c`, `VY mod 32 + r`) flips
/// exactly when bit `7 - c` of the byte at `I + r` is set.
pub proof fn lemma_draw_pixel(m: Machine, opcode: u16, random: u8, r: int, c: int)
    requires
        machine_invariant(m),
        opcode >> 12u16 == 0xD,
        execute_spec(m, opcode, random).1 is Ok,
        0 <= r < opcode & 0xFu16,
        0 <= c < 8,
        m.v[((opcode >> 8u16) & 0xFu16) as int] % 64 + c < WIDTH,
        m.v[((opcode >> 4u16) & 0xFu16) as int] % 32 + r < HEIGHT,
    ensures
        ({
            let vx = m.v[((opcode >> 8u16) & 0xFu16) as int] % 64;
            let vy = m.v[((opcode >> 4u16) & 0xFu16) as int] % 32;
            let idx = (vy + r) * WIDTH + vx + c;
            &&& m.i + r < MEMORY_SIZE
            &&& execute_spec(m, opcode, random).0.pixels[idx] == (m.pixels[idx] != bit_set(
                m.memory[m.i + r],
                (7 - c) as u8,
            ))
        }),
{
    lemma_opcode_fields(opcode);
    let vx = m.v[((opcode >> 8u16) & 0xFu16) as int] % 64;
    let vy = m.v[((opcode >> 4u16) & 0xFu16) as int] % 32;
    let idx = (vy + r) * WIDTH + vx + c;
    assert(idx % 64 == vx + c);
    assert(idx / 64 == vy + r);
}

/// `DXYN` sets `VF` to 1 exactly when some pixel that was lit is dark after
/// the draw, and to 0 otherwise.
pub proof fn lemma_draw_collision_flag(m: Machine, opcode: u16, random: u8)
    requires
        machine_invariant(m),
        opcode >> 12u16 == 0xD,
        execute_spec(m, opcode, random).1 is Ok,
    ensures
        execute_spec(m, opcode, random).0.v[VF as int] == if exists|p: int|
            0 <= p < PIXEL_COUNT && m.pixels[p] && !#[trigger] execute_spec(
                m,
                opcode,
                random,
            ).0.pixels[p] {
            1u8
        } else {
            0u8
        },
{
    lemma_opcode_fields(opcode);
    let after = execute_spec(m, opcode, random).0;
    let vx = (m.v[reg_x(opcode)] % 64) as int;
    let vy = (m.v[reg_y(opcode)] % 32) as int;
    let n = nibble_n(opcode) as int;
    let erased = exists|p: int| 0 <= p < PIXEL_COUNT && m.pixels[p] && !#[trigger] after.pixels[p];
    if erased {
        let p = choose|p: int| 0 <= p < PIXEL_COUNT && m.pixels[p] && !#[trigger] after.pixels[p];
        assert(sprite_covers(m, vx, vy, n, p));
    }
    if sprite_collides(m, vx, vy, n) {
        let p = choose|p: int|
            0 <= p < PIXEL_COUNT && #[trigger] sprite_covers(m, vx, vy, n, p) && m.pixels[p];
        assert(!after.pixels[p]);
    }
}

/// `FX55` writes `V0..=VX` to the addresses `I..=I+X`, leaves every other
/// address alone and advances `I` by `X + 1` (modulo 65536); when `I + X` lies
/// outside memory it reports that address and changes nothing.
pub proof fn lemma_store_registers(m: Machine, opcode: u16, random: u8)
    requires
        machine_invariant(m),
        opcode >> 12u16 == 0xF,
        opcode & 0xFFu16 == 0x55,
    ensures
        ({
            let x = ((opcode >> 8u16) & 0xFu16) as int;
            let after = execute_spec(m, opcode, random);
            &&& m.i + x >= MEMORY_SIZE ==> after == (m, Err::<(), Chip8Error>(
                Chip8Error::OutOfBounds { addr: (m.i + x) as usize },
            ))
            &&& m.i + x < MEMORY_SIZE ==> {
                &&& after.1 is Ok
                &&& forall|k: int| 0 <= k <= x ==> #[trigger] after.0.memory[m.i + k] == m.v[k]
                &&& forall|a: int|
                    0 <= a < MEMORY_SIZE && !(m.i <= a <= m.i + x) ==> #[trigger] after.0.memory[a]
                        == m.memory[a]
                &&& after.0.memory.len() == MEMORY_SIZE
                &&& after.0.i == (m.i + x + 1) % 65536
                &&& after.0 == (Machine { memory: after.0.memory, i: after.0.i, ..m })
            }
        }),
{
    lemma_opcode_fields(opcode);
}

/// `FX65` reads `V0..=VX` from the addresses `I..=I+X`, leaves the other
/// registers alone and advances `I` by `X + 1` (modulo 65536); when `I + X`
/// lies outside memory it reports that address and changes nothing.
pub proof fn lemma_load_registers(m: Machine, opcode: u16, random: u8)
    requires
        machine_invariant(m),
        opcode >> 12u16 == 0xF,
        opcode & 0xFFu16 == 0x65,
    ensures
        ({
            let x = ((opcode >> 8u16) & 0xFu16) as int;
            let after = execute_spec(m, opcode, random);
            &&& m.i + x >= MEMORY_SIZE ==> after == (m, Err::<(), Chip8Error>(
                Chip8Error::OutOfBounds { addr: (m.i + x) as usize },
            ))
            &&& m.i + x < MEMORY_SIZE ==> {
                &&& after.1 is Ok
                &&& forall|k: int| 0 <= k <= x ==> #[trigger] after.0.v[k] == m.memory[m.i + k]
                &&& forall|k: int| x < k < 16 ==> #[trigger] after.0.v[k] == m.v[k]
                &&& after.0.v.len() == 16
                &&& after.0.i == (m.i + x + 1) % 65536
                &&& after.0 == (Machine { v: after.0.v, i: after.0.i, ..m })
            }
        }),
{
    lemma_opcode_fields(opcode);
}

/// The machine a fresh interpreter starts from: the font at `FONT_START`,
/// zeros in the rest of memory, in the registers, on the stack and in the
/// timers, a blank screen, no key held, and `pc` at `ROM_START`.
pub proof fn lemma_initial_machine()
    ensures
        ({
            let m = initial_machine();
            &&& machine_invariant(m)
            &&& m.pc == 0x200
            &&& m.sp == 0
            &&& m.i == 0
            &&& m.delay_timer == 0
            &&& m.sound_timer == 0
            &&& !m.waiting_for_vblank
            &&& m.waiting_key is None
            &&& forall|k: int| 0 <= k < FONT_SIZE ==> #[trigger] m.memory[0x50 + k] == FONT@[k]
            &&& forall|a: int|
                0 <= a < MEMORY_SIZE && !(0x50 <= a < 0x50 + FONT_SIZE) ==> #[trigger] m.memory[a]
                    == 0
            &&& forall|r: int| 0 <= r < 16 ==> #[trigger] m.v[r] == 0
            &&& forall|p: int| 0 <= p < PIXEL_COUNT ==> !#[trigger] m.pixels[p]
            &&& forall|k: int| 0 <= k < KEY_COUNT ==> !#[trigger] m.keys[k]
        }),
{
}

} // verus!
