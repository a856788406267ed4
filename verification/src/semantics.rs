//! The mathematical semantics of every instruction: one spec transition per
//! opcode pattern, a dispatcher over the decoded fields, and the semantics of
//! one whole fetch-decode-execute step.
//!
//! Randomness is the only non-determinism: the dispatcher takes the drawn
//! byte as an argument, so each transition is a function, and the executable
//! step is related to it by an existential over that byte.

use vstd::prelude::*;
use crate::EmuError;
use crate::CycleOutcome;
use crate::machine::Machine;
use crate::machine::wf;
use crate::decode::spec_opcode_word;
use crate::decode::spec_nnn;
use crate::decode::spec_n;
use crate::decode::spec_x;
use crate::decode::spec_y;
use crate::decode::spec_kk;
use crate::decode::spec_class;

verus! {

/// An unrecognized instruction is skipped: the program counter advances by 2
/// and nothing else changes.
pub open spec fn spec_skip(m: Machine) -> Machine {
    Machine { pc: m.pc + 2, ..m }
}

/// `00E0`: every framebuffer cell is cleared.
pub open spec fn spec_cls(m: Machine) -> Machine {
    Machine { fb: Seq::new(2048, |p: int| false), pc: m.pc + 2, ..m }
}

/// `00EE`: return from subroutine; popping an empty stack is fatal.
pub open spec fn spec_ret(m: Machine) -> Result<Machine, EmuError> {
    if m.sp < 1 {
        Err(EmuError::StackUnderflow)
    } else {
        Ok(Machine { sp: m.sp - 1, pc: m.stack[m.sp - 1] as int, ..m })
    }
}

/// `1nnn`: jump.
pub open spec fn spec_jp(m: Machine, nnn: u16) -> Machine {
    Machine { pc: nnn as int, ..m }
}

/// `2nnn`: call; the return address pushed is the instruction after the call;
/// a seventeenth outstanding call is fatal.
pub open spec fn spec_call(m: Machine, nnn: u16) -> Result<Machine, EmuError> {
    if m.sp >= 16 {
        Err(EmuError::StackOverflow)
    } else {
        Ok(Machine {
            stack: m.stack.update(m.sp, (m.pc + 2) as u16),
            sp: m.sp + 1,
            pc: nnn as int,
            ..m
        })
    }
}

/// `3xkk`: skip the next instruction when `vx == kk`.
pub open spec fn spec_se_byte(m: Machine, x: int, kk: u8) -> Machine {
    Machine { pc: m.pc + if m.v[x] == kk { 4int } else { 2int }, ..m }
}

/// `4xkk`: skip the next instruction when `vx != kk`.
pub open spec fn spec_sne_byte(m: Machine, x: int, kk: u8) -> Machine {
    Machine { pc: m.pc + if m.v[x] != kk { 4int } else { 2int }, ..m }
}

/// `5xy0`: skip the next instruction when `vx == vy`.
pub open spec fn spec_se_reg(m: Machine, x: int, y: int) -> Machine {
    Machine { pc: m.pc + if m.v[x] == m.v[y] { 4int } else { 2int }, ..m }
}

/// `9xy0`: skip the next instruction when `vx != vy`.
pub open spec fn spec_sne_reg(m: Machine, x: int, y: int) -> Machine {
    Machine { pc: m.pc + if m.v[x] != m.v[y] { 4int } else { 2int }, ..m }
}

/// `6xkk`: load the immediate byte into `vx`.
pub open spec fn spec_ld_byte(m: Machine, x: int, kk: u8) -> Machine {
    Machine { v: m.v.update(x, kk), pc: m.pc + 2, ..m }
}

/// `7xkk`: add the immediate byte to `vx`, wrapping modulo 256; no flag is
/// touched.
pub open spec fn spec_add_byte(m: Machine, x: int, kk: u8) -> Machine {
    Machine { v: m.v.update(x, ((m.v[x] + kk) % 256) as u8), pc: m.pc + 2, ..m }
}

/// `8xy0`: copy `vy` into `vx`.
pub open spec fn spec_ld_reg(m: Machine, x: int, y: int) -> Machine {
    Machine { v: m.v.update(x, m.v[y]), pc: m.pc + 2, ..m }
}

/// `8xy1`: bitwise OR.
pub open spec fn spec_or_reg(m: Machine, x: int, y: int) -> Machine {
    Machine { v: m.v.update(x, m.v[x] | m.v[y]), pc: m.pc + 2, ..m }
}

/// `8xy2`: bitwise AND.
pub open spec fn spec_and_reg(m: Machine, x: int, y: int) -> Machine {
    Machine { v: m.v.update(x, m.v[x] & m.v[y]), pc: m.pc + 2, ..m }
}

/// `8xy3`: bitwise XOR.
pub open spec fn spec_xor_reg(m: Machine, x: int, y: int) -> Machine {
    Machine { v: m.v.update(x, m.v[x] ^ m.v[y]), pc: m.pc + 2, ..m }
}

/// `8xy4`: add with carry.  The flag is written before the destination, so
/// when `x` is 15 the sum wins; the operands are read before either write.
pub open spec fn spec_add_carry(m: Machine, x: int, y: int) -> Machine {
    let sum = m.v[x] + m.v[y];
    let flag: u8 = if sum > 255 { 1u8 } else { 0u8 };
    Machine { v: m.v.update(15, flag).update(x, (sum % 256) as u8), pc: m.pc + 2, ..m }
}

/// `8xy5`: subtract with borrow; the flag is 1 exactly when no borrow occurs.
pub open spec fn spec_sub_borrow(m: Machine, x: int, y: int) -> Machine {
    let flag: u8 = if m.v[x] >= m.v[y] { 1u8 } else { 0u8 };
    let diff = ((m.v[x] - m.v[y]) % 256) as u8;
    Machine { v: m.v.update(15, flag).update(x, diff), pc: m.pc + 2, ..m }
}

/// `8xy6`: shift `vx` right by one; the flag receives the shifted-out low bit.
pub open spec fn spec_shr(m: Machine, x: int) -> Machine {
    let flag: u8 = m.v[x] & 1;
    Machine { v: m.v.update(15, flag).update(x, m.v[x] >> 1), pc: m.pc + 2, ..m }
}

/// `8xy7`: reverse subtract with borrow: `vx` becomes `vy - vx`.
pub open spec fn spec_subn_borrow(m: Machine, x: int, y: int) -> Machine {
    let flag: u8 = if m.v[y] >= m.v[x] { 1u8 } else { 0u8 };
    let diff = ((m.v[y] - m.v[x]) % 256) as u8;
    Machine { v: m.v.update(15, flag).update(x, diff), pc: m.pc + 2, ..m }
}

/// `8xyE`: shift `vx` left by one; the flag receives the shifted-out high bit.
pub open spec fn spec_shl(m: Machine, x: int) -> Machine {
    let flag: u8 = m.v[x] >> 7;
    Machine { v: m.v.update(15, flag).update(x, m.v[x] << 1), pc: m.pc + 2, ..m }
}

/// `Annn`: load the index register.
pub open spec fn spec_ld_i(m: Machine, nnn: u16) -> Machine {
    Machine { i: nnn, pc: m.pc + 2, ..m }
}

/// `Bnnn`: jump to `nnn + v0`.  The sum stays within the 16-bit range; the
/// next fetch validates it against memory.
pub open spec fn spec_jp_v0(m: Machine, nnn: u16) -> Machine {
    Machine { pc: nnn + m.v[0], ..m }
}

/// `Cxkk`: load a random byte masked by `kk`; the byte drawn is this
/// function's argument.
pub open spec fn spec_rnd(m: Machine, x: int, kk: u8, rnd: u8) -> Machine {
    Machine { v: m.v.update(x, rnd & kk), pc: m.pc + 2, ..m }
}

/// Whether bit `c` (0 = leftmost) of a sprite row byte is set.
pub open spec fn sprite_pixel(row: u8, c: int) -> bool {
    (row >> (7 - c) as u8) & 1 == 1
}

/// The framebuffer cell that sprite bit `(r, c)` lands on when drawn at
/// `(vx, vy)`: both axes wrap.
pub open spec fn draw_cell(vx: int, vy: int, r: int, c: int) -> int {
    ((vy + r) % 32) * 64 + ((vx + c) % 64)
}

/// Whether some sprite bit among the pairs strictly before `(rr, cc)` in
/// drawing order (row major over rows `0..n`, columns `0..8`) is set and
/// lands on cell `idx`.
pub open spec fn hits_before(
    mem: Seq<u8>,
    i: int,
    vx: int,
    vy: int,
    idx: int,
    rr: int,
    cc: int,
) -> bool {
    exists|r: int, c: int|
        0 <= r && 0 <= c < 8 && (r < rr || (r == rr && c < cc)) && sprite_pixel(mem[i + r], c)
            && draw_cell(vx, vy, r, c) == idx
}

/// Whether some sprite bit among the pairs strictly before `(rr, cc)` is set
/// and lands on a framebuffer cell that is already set: a collision.
pub open spec fn collision_before(
    mem: Seq<u8>,
    i: int,
    vx: int,
    vy: int,
    fb: Seq<bool>,
    rr: int,
    cc: int,
) -> bool {
    exists|r: int, c: int|
        0 <= r && 0 <= c < 8 && (r < rr || (r == rr && c < cc)) && sprite_pixel(mem[i + r], c)
            && fb[draw_cell(vx, vy, r, c)]
}

/// The framebuffer after XOR-compositing an `n`-row sprite at `(vx, vy)`:
/// each cell a set sprite bit lands on is toggled, all others keep their value.
pub open spec fn draw_fb(m: Machine, vx: int, vy: int, n: int) -> Seq<bool> {
    Seq::new(
        2048,
        |idx: int|
            if hits_before(m.mem, m.i as int, vx, vy, idx, n, 0) {
                !m.fb[idx]
            } else {
                m.fb[idx]
            },
    )
}

/// `Dxyn`: draw an `n`-row sprite read from `memory[i..i+n]` at the
/// coordinates held in `vx` and `vy`, wrapping on both axes; the flag is 1
/// exactly when a previously set pixel is cleared.  A sprite row beyond the
/// end of memory is fatal.
pub open spec fn spec_draw(m: Machine, x: int, y: int, n: int) -> Result<Machine, EmuError> {
    if m.i + n > 4096 {
        Err(EmuError::OutOfBounds)
    } else {
        let vx = m.v[x] as int;
        let vy = m.v[y] as int;
        let flag: u8 = if collision_before(m.mem, m.i as int, vx, vy, m.fb, n, 0) {
            1u8
        } else {
            0u8
        };
        Ok(Machine {
            fb: draw_fb(m, vx, vy, n),
            v: m.v.update(15, flag),
            pc: m.pc + 2,
            ..m
        })
    }
}

/// Two distinct offsets inside one modulus window land on distinct residues.
proof fn lemma_mod_window_distinct(t: int, a: int, b: int, md: int)
    requires
        0 <= t,
        0 <= a < b,
        b - a < md,
        0 < md,
    ensures
        (t + a) % md != (t + b) % md,
{
    let d = b - a;
    vstd::arithmetic::div_mod::lemma_mod_equivalence(t + b, t + a, md);
    if (t + a) % md == (t + b) % md {
        assert((t + b - (t + a)) % md == 0);
        vstd::arithmetic::div_mod::lemma_small_mod(d as nat, md as nat);
        assert(false);
    }
}

/// A sprite cell index always names one of the 2048 framebuffer cells.
pub proof fn lemma_draw_cell_bound(vx: int, vy: int, r: int, c: int)
    requires
        0 <= vx,
        0 <= vy,
        0 <= r,
        0 <= c,
    ensures
        0 <= draw_cell(vx, vy, r, c) < 2048,
{
    vstd::arithmetic::div_mod::lemma_mod_bound(vy + r, 32);
    vstd::arithmetic::div_mod::lemma_mod_bound(vx + c, 64);
}

/// Distinct sprite bits of one draw land on distinct framebuffer cells:
/// the sprite is at most 15 rows of 8 columns, within the 32 by 64 wrap.
pub proof fn lemma_draw_cell_injective(vx: int, vy: int, r1: int, c1: int, r2: int, c2: int)
    requires
        0 <= vx,
        0 <= vy,
        0 <= r1 < 16,
        0 <= c1 < 8,
        0 <= r2 < 16,
        0 <= c2 < 8,
        !(r1 == r2 && c1 == c2),
    ensures
        draw_cell(vx, vy, r1, c1) != draw_cell(vx, vy, r2, c2),
{
    let row1 = (vy + r1) % 32;
    let col1 = (vx + c1) % 64;
    let row2 = (vy + r2) % 32;
    let col2 = (vx + c2) % 64;
    vstd::arithmetic::div_mod::lemma_mod_bound(vy + r1, 32);
    vstd::arithmetic::div_mod::lemma_mod_bound(vy + r2, 32);
    vstd::arithmetic::div_mod::lemma_mod_bound(vx + c1, 64);
    vstd::arithmetic::div_mod::lemma_mod_bound(vx + c2, 64);
    if draw_cell(vx, vy, r1, c1) == draw_cell(vx, vy, r2, c2) {
        vstd::arithmetic::div_mod::lemma_fundamental_div_mod_converse(
            row1 * 64 + col1,
            64,
            row1,
            col1,
        );
        vstd::arithmetic::div_mod::lemma_fundamental_div_mod_converse(
            row2 * 64 + col2,
            64,
            row2,
            col2,
        );
        assert(row1 == row2 && col1 == col2);
        if r1 < r2 {
            lemma_mod_window_distinct(vy, r1, r2, 32);
        } else if r2 < r1 {
            lemma_mod_window_distinct(vy, r2, r1, 32);
        } else if c1 < c2 {
            lemma_mod_window_distinct(vx, c1, c2, 64);
        } else {
            lemma_mod_window_distinct(vx, c2, c1, 64);
        }
        assert(false);
    }
}

/// Extending the processed range by the one pair `(rr, cc)` adds exactly
/// that pair's contribution to the hit predicate.
pub proof fn lemma_hits_step(mem: Seq<u8>, i: int, vx: int, vy: int, idx: int, rr: int, cc: int)
    requires
        0 <= rr,
        0 <= cc < 8,
    ensures
        hits_before(mem, i, vx, vy, idx, rr, cc + 1) == (hits_before(mem, i, vx, vy, idx, rr, cc)
            || (sprite_pixel(mem[i + rr], cc) && draw_cell(vx, vy, rr, cc) == idx)),
{
    if hits_before(mem, i, vx, vy, idx, rr, cc + 1) {
        let (r, c) = choose|r: int, c: int|
            0 <= r && 0 <= c < 8 && (r < rr || (r == rr && c < cc + 1)) && sprite_pixel(
                mem[i + r],
                c,
            ) && draw_cell(vx, vy, r, c) == idx;
        if r < rr || (r == rr && c < cc) {
            assert(hits_before(mem, i, vx, vy, idx, rr, cc));
        } else {
            assert(r == rr && c == cc);
        }
    }
    if hits_before(mem, i, vx, vy, idx, rr, cc) {
        let (r, c) = choose|r: int, c: int|
            0 <= r && 0 <= c < 8 && (r < rr || (r == rr && c < cc)) && sprite_pixel(mem[i + r], c)
                && draw_cell(vx, vy, r, c) == idx;
        assert(hits_before(mem, i, vx, vy, idx, rr, cc + 1));
    }
    if sprite_pixel(mem[i + rr], cc) && draw_cell(vx, vy, rr, cc) == idx {
        assert(hits_before(mem, i, vx, vy, idx, rr, cc + 1));
    }
}

/// Finishing a row's eight columns is the same as standing at the start of
/// the next row.
pub proof fn lemma_hits_row_end(mem: Seq<u8>, i: int, vx: int, vy: int, idx: int, rr: int)
    requires
        0 <= rr,
    ensures
        hits_before(mem, i, vx, vy, idx, rr, 8) == hits_before(mem, i, vx, vy, idx, rr + 1, 0),
{
    if hits_before(mem, i, vx, vy, idx, rr, 8) {
        let (r, c) = choose|r: int, c: int|
            0 <= r && 0 <= c < 8 && (r < rr || (r == rr && c < 8)) && sprite_pixel(mem[i + r], c)
                && draw_cell(vx, vy, r, c) == idx;
        assert(r < rr + 1);
        assert(hits_before(mem, i, vx, vy, idx, rr + 1, 0));
    }
    if hits_before(mem, i, vx, vy, idx, rr + 1, 0) {
        let (r, c) = choose|r: int, c: int|
            0 <= r && 0 <= c < 8 && (r < rr + 1) && sprite_pixel(mem[i + r], c) && draw_cell(
                vx,
                vy,
                r,
                c,
            ) == idx;
        assert(hits_before(mem, i, vx, vy, idx, rr, 8));
    }
}

/// The collision predicate grows by one pair the same way the hit predicate
/// does.
pub proof fn lemma_collision_step(
    mem: Seq<u8>,
    i: int,
    vx: int,
    vy: int,
    fb: Seq<bool>,
    rr: int,
    cc: int,
)
    requires
        0 <= rr,
        0 <= cc < 8,
    ensures
        collision_before(mem, i, vx, vy, fb, rr, cc + 1) == (collision_before(
            mem,
            i,
            vx,
            vy,
            fb,
            rr,
            cc,
        ) || (sprite_pixel(mem[i + rr], cc) && fb[draw_cell(vx, vy, rr, cc)])),
{
    if collision_before(mem, i, vx, vy, fb, rr, cc + 1) {
        let (r, c) = choose|r: int, c: int|
            0 <= r && 0 <= c < 8 && (r < rr || (r == rr && c < cc + 1)) && sprite_pixel(
                mem[i + r],
                c,
            ) && fb[draw_cell(vx, vy, r, c)];
        if r < rr || (r == rr && c < cc) {
            assert(collision_before(mem, i, vx, vy, fb, rr, cc));
        } else {
            assert(r == rr && c == cc);
        }
    }
    if collision_before(mem, i, vx, vy, fb, rr, cc) {
        let (r, c) = choose|r: int, c: int|
            0 <= r && 0 <= c < 8 && (r < rr || (r == rr && c < cc)) && sprite_pixel(mem[i + r], c)
                && fb[draw_cell(vx, vy, r, c)];
        assert(collision_before(mem, i, vx, vy, fb, rr, cc + 1));
    }
    if sprite_pixel(mem[i + rr], cc) && fb[draw_cell(vx, vy, rr, cc)] {
        assert(collision_before(mem, i, vx, vy, fb, rr, cc + 1));
    }
}

/// As the collision predicate, for the end of a row.
pub proof fn lemma_collision_row_end(
    mem: Seq<u8>,
    i: int,
    vx: int,
    vy: int,
    fb: Seq<bool>,
    rr: int,
)
    requires
        0 <= rr,
    ensures
        collision_before(mem, i, vx, vy, fb, rr, 8) == collision_before(
            mem,
            i,
            vx,
            vy,
            fb,
            rr + 1,
            0,
        ),
{
    if collision_before(mem, i, vx, vy, fb, rr, 8) {
        let (r, c) = choose|r: int, c: int|
            0 <= r && 0 <= c < 8 && (r < rr || (r == rr && c < 8)) && sprite_pixel(mem[i + r], c)
                && fb[draw_cell(vx, vy, r, c)];
        assert(r < rr + 1);
        assert(collision_before(mem, i, vx, vy, fb, rr + 1, 0));
    }
    if collision_before(mem, i, vx, vy, fb, rr + 1, 0) {
        let (r, c) = choose|r: int, c: int|
            0 <= r && 0 <= c < 8 && (r < rr + 1) && sprite_pixel(mem[i + r], c) && fb[draw_cell(
                vx,
                vy,
                r,
                c,
            )];
        assert(collision_before(mem, i, vx, vy, fb, rr, 8));
    }
}

/// The cell the pair `(rr, cc)` lands on is untouched by every pair
/// processed before it: no two sprite bits of one draw share a cell.
pub proof fn lemma_cell_unhit(mem: Seq<u8>, i: int, vx: int, vy: int, rr: int, cc: int)
    requires
        0 <= vx,
        0 <= vy,
        0 <= rr < 16,
        0 <= cc < 8,
    ensures
        !hits_before(mem, i, vx, vy, draw_cell(vx, vy, rr, cc), rr, cc),
{
    let idx = draw_cell(vx, vy, rr, cc);
    if hits_before(mem, i, vx, vy, idx, rr, cc) {
        let (r, c) = choose|r: int, c: int|
            0 <= r && 0 <= c < 8 && (r < rr || (r == rr && c < cc)) && sprite_pixel(mem[i + r], c)
                && draw_cell(vx, vy, r, c) == idx;
        lemma_draw_cell_injective(vx, vy, r, c, rr, cc);
        assert(false);
    }
}

/// `Ex9E`: skip when the key indexed by `vx` is pressed; a register value
/// beyond the 16 keys is fatal.
pub open spec fn spec_skp(m: Machine, x: int) -> Result<Machine, EmuError> {
    if m.v[x] >= 16 {
        Err(EmuError::OutOfBounds)
    } else {
        Ok(Machine { pc: m.pc + if m.key[m.v[x] as int] { 4int } else { 2int }, ..m })
    }
}

/// `ExA1`: skip when the key indexed by `vx` is not pressed.
pub open spec fn spec_sknp(m: Machine, x: int) -> Result<Machine, EmuError> {
    if m.v[x] >= 16 {
        Err(EmuError::OutOfBounds)
    } else {
        Ok(Machine { pc: m.pc + if !m.key[m.v[x] as int] { 4int } else { 2int }, ..m })
    }
}

/// `Fx07`: read the delay timer into `vx`.
pub open spec fn spec_ld_from_dt(m: Machine, x: int) -> Machine {
    Machine { v: m.v.update(x, m.delay), pc: m.pc + 2, ..m }
}

/// The lowest pressed key at or above index `from`, if any.
pub open spec fn first_pressed(key: Seq<bool>, from: int) -> Option<u8>
    decreases 16 - from,
{
    if from < 0 || from >= 16 {
        None
    } else if key[from] {
        Some(from as u8)
    } else {
        first_pressed(key, from + 1)
    }
}

/// A found key index always names one of the 16 keys.
pub proof fn lemma_first_pressed_bound(key: Seq<bool>, from: int)
    ensures
        first_pressed(key, from) matches Some(k) ==> k < 16,
    decreases 16 - from,
{
    if 0 <= from < 16 && !key[from] {
        lemma_first_pressed_bound(key, from + 1);
    }
}

/// `Fx0A`: wait for a key press.  With a key already down, the lowest pressed
/// key index goes to `vx` and execution continues; otherwise the instruction
/// suspends, recording the destination register, and the program counter does
/// not move.
pub open spec fn spec_wait_key(m: Machine, x: int) -> Machine {
    match first_pressed(m.key, 0) {
        Some(k) => Machine { v: m.v.update(x, k), pc: m.pc + 2, ..m },
        None => Machine { waiting: Some(x as u8), ..m },
    }
}

/// A suspended wait-for-key resolves as soon as a key is down: the lowest
/// pressed key index goes to the recorded register and the program counter
/// moves past the instruction.  With no key down, nothing changes.
pub open spec fn spec_resume(m: Machine, x: int) -> Machine {
    match first_pressed(m.key, 0) {
        Some(k) => Machine { v: m.v.update(x, k), waiting: None, pc: m.pc + 2, ..m },
        None => m,
    }
}

/// `Fx15`: load `vx` into the delay timer.
pub open spec fn spec_ld_dt(m: Machine, x: int) -> Machine {
    Machine { delay: m.v[x], pc: m.pc + 2, ..m }
}

/// `Fx18`: load `vx` into the sound timer.
pub open spec fn spec_ld_st(m: Machine, x: int) -> Machine {
    Machine { sound: m.v[x], pc: m.pc + 2, ..m }
}

/// `Fx1E`: add `vx` to the index register, wrapping in its 16-bit range.
pub open spec fn spec_add_i(m: Machine, x: int) -> Machine {
    Machine { i: ((m.i + m.v[x]) % 0x10000) as u16, pc: m.pc + 2, ..m }
}

/// `Fx29`: point the index register at the font glyph for the digit in `vx`;
/// glyphs occupy 5 bytes each from address 0.
pub open spec fn spec_ld_font(m: Machine, x: int) -> Machine {
    Machine { i: (5 * m.v[x]) as u16, pc: m.pc + 2, ..m }
}

/// `Fx33`: store the three decimal digits of `vx` at `memory[i..i+3]`, most
/// significant first; running past the end of memory is fatal.
pub open spec fn spec_bcd(m: Machine, x: int) -> Result<Machine, EmuError> {
    if m.i + 3 > 4096 {
        Err(EmuError::OutOfBounds)
    } else {
        let val = m.v[x];
        Ok(Machine {
            mem: m.mem.update(m.i as int, val / 100).update(m.i + 1, (val / 10) % 10).update(
                m.i + 2,
                val % 10,
            ),
            pc: m.pc + 2,
            ..m
        })
    }
}

/// `Fx55`: copy `v0..vx` inclusive to `memory[i..]`; the index register is
/// unchanged afterward; running past the end of memory is fatal.
pub open spec fn spec_store_regs(m: Machine, x: int) -> Result<Machine, EmuError> {
    if m.i + x + 1 > 4096 {
        Err(EmuError::OutOfBounds)
    } else {
        Ok(Machine {
            mem: Seq::new(
                4096,
                |a: int| if m.i <= a <= m.i + x { m.v[a - m.i] } else { m.mem[a] },
            ),
            pc: m.pc + 2,
            ..m
        })
    }
}

/// `Fx65`: copy `memory[i..]` into `v0..vx` inclusive; the index register is
/// unchanged afterward; running past the end of memory is fatal.
pub open spec fn spec_load_regs(m: Machine, x: int) -> Result<Machine, EmuError> {
    if m.i + x + 1 > 4096 {
        Err(EmuError::OutOfBounds)
    } else {
        Ok(Machine {
            v: Seq::new(16, |r: int| if r <= x { m.mem[m.i + r] } else { m.v[r] }),
            pc: m.pc + 2,
            ..m
        })
    }
}

/// Whether an opcode word matches one of the 35 recognized patterns.
pub open spec fn known_opcode(op: u16) -> bool {
    ||| op == 0x00E0
    ||| op == 0x00EE
    ||| spec_class(op) == 0x1
    ||| spec_class(op) == 0x2
    ||| spec_class(op) == 0x3
    ||| spec_class(op) == 0x4
    ||| (spec_class(op) == 0x5 && spec_n(op) == 0)
    ||| spec_class(op) == 0x6
    ||| spec_class(op) == 0x7
    ||| (spec_class(op) == 0x8 && (spec_n(op) <= 7 || spec_n(op) == 0xE))
    ||| (spec_class(op) == 0x9 && spec_n(op) == 0)
    ||| spec_class(op) == 0xA
    ||| spec_class(op) == 0xB
    ||| spec_class(op) == 0xC
    ||| spec_class(op) == 0xD
    ||| (spec_class(op) == 0xE && (spec_kk(op) == 0x9E || spec_kk(op) == 0xA1))
    ||| (spec_class(op) == 0xF && (spec_kk(op) == 0x07 || spec_kk(op) == 0x0A || spec_kk(op)
        == 0x15 || spec_kk(op) == 0x18 || spec_kk(op) == 0x1E || spec_kk(op) == 0x29 || spec_kk(op)
        == 0x33 || spec_kk(op) == 0x55 || spec_kk(op) == 0x65))
}

/// Dispatch on the decoded opcode: the transition each opcode word denotes.
/// Every 16-bit word is covered; an unrecognized pattern is a skip.
pub open spec fn exec_op(m: Machine, op: u16, rnd: u8) -> Result<Machine, EmuError> {
    let x = spec_x(op) as int;
    let y = spec_y(op) as int;
    let kk = spec_kk(op);
    let nnn = spec_nnn(op);
    let n = spec_n(op) as int;
    if op == 0x00E0 {
        Ok(spec_cls(m))
    } else if op == 0x00EE {
        spec_ret(m)
    } else if spec_class(op) == 0x1 {
        Ok(spec_jp(m, nnn))
    } else if spec_class(op) == 0x2 {
        spec_call(m, nnn)
    } else if spec_class(op) == 0x3 {
        Ok(spec_se_byte(m, x, kk))
    } else if spec_class(op) == 0x4 {
        Ok(spec_sne_byte(m, x, kk))
    } else if spec_class(op) == 0x5 && spec_n(op) == 0 {
        Ok(spec_se_reg(m, x, y))
    } else if spec_class(op) == 0x6 {
        Ok(spec_ld_byte(m, x, kk))
    } else if spec_class(op) == 0x7 {
        Ok(spec_add_byte(m, x, kk))
    } else if spec_class(op) == 0x8 && spec_n(op) == 0 {
        Ok(spec_ld_reg(m, x, y))
    } else if spec_class(op) == 0x8 && spec_n(op) == 1 {
        Ok(spec_or_reg(m, x, y))
    } else if spec_class(op) == 0x8 && spec_n(op) == 2 {
        Ok(spec_and_reg(m, x, y))
    } else if spec_class(op) == 0x8 && spec_n(op) == 3 {
        Ok(spec_xor_reg(m, x, y))
    } else if spec_class(op) == 0x8 && spec_n(op) == 4 {
        Ok(spec_add_carry(m, x, y))
    } else if spec_class(op) == 0x8 && spec_n(op) == 5 {
        Ok(spec_sub_borrow(m, x, y))
    } else if spec_class(op) == 0x8 && spec_n(op) == 6 {
        Ok(spec_shr(m, x))
    } else if spec_class(op) == 0x8 && spec_n(op) == 7 {
        Ok(spec_subn_borrow(m, x, y))
    } else if spec_class(op) == 0x8 && spec_n(op) == 0xE {
        Ok(spec_shl(m, x))
    } else if spec_class(op) == 0x9 && spec_n(op) == 0 {
        Ok(spec_sne_reg(m, x, y))
    } else if spec_class(op) == 0xA {
        Ok(spec_ld_i(m, nnn))
    } else if spec_class(op) == 0xB {
        Ok(spec_jp_v0(m, nnn))
    } else if spec_class(op) == 0xC {
        Ok(spec_rnd(m, x, kk, rnd))
    } else if spec_class(op) == 0xD {
        spec_draw(m, x, y, n)
    } else if spec_class(op) == 0xE && kk == 0x9E {
        spec_skp(m, x)
    } else if spec_class(op) == 0xE && kk == 0xA1 {
        spec_sknp(m, x)
    } else if spec_class(op) == 0xF && kk == 0x07 {
        Ok(spec_ld_from_dt(m, x))
    } else if spec_class(op) == 0xF && kk == 0x0A {
        Ok(spec_wait_key(m, x))
    } else if spec_class(op) == 0xF && kk == 0x15 {
        Ok(spec_ld_dt(m, x))
    } else if spec_class(op) == 0xF && kk == 0x18 {
        Ok(spec_ld_st(m, x))
    } else if spec_class(op) == 0xF && kk == 0x1E {
        Ok(spec_add_i(m, x))
    } else if spec_class(op) == 0xF && kk == 0x29 {
        Ok(spec_ld_font(m, x))
    } else if spec_class(op) == 0xF && kk == 0x33 {
        spec_bcd(m, x)
    } else if spec_class(op) == 0xF && kk == 0x55 {
        spec_store_regs(m, x)
    } else if spec_class(op) == 0xF && kk == 0x65 {
        spec_load_regs(m, x)
    } else {
        Ok(spec_skip(m))
    }
}

/// One whole step.  A suspended wait-for-key consumes the step; otherwise the
/// two bytes at the program counter are fetched (running past the end of
/// memory is fatal), assembled, and dispatched.
pub open spec fn step_spec(m: Machine, rnd: u8) -> Result<Machine, EmuError> {
    match m.waiting {
        Some(x) => Ok(spec_resume(m, x as int)),
        None => if m.pc + 1 >= 4096 {
            Err(EmuError::OutOfBounds)
        } else {
            exec_op(m, spec_opcode_word(m.mem[m.pc], m.mem[m.pc + 1]), rnd)
        },
    }
}

/// Whether the step about to run from `m` touches the framebuffer: a clear
/// or a draw.
pub open spec fn spec_redraw(m: Machine) -> bool {
    m.waiting is None && m.pc + 1 < 4096 && {
        let op = spec_opcode_word(m.mem[m.pc], m.mem[m.pc + 1]);
        op == 0x00E0 || spec_class(op) == 0xD
    }
}

/// How one executed step relates the states before and after to its result,
/// for a given drawn byte: on success the machine follows `step_spec`, the
/// redraw hint is exact, and the timers hint reports whether either timer is
/// running; on failure the error is the one `step_spec` gives and the machine
/// is unchanged.
pub open spec fn cycle_post_with(
    pre: Machine,
    post: Machine,
    r: Result<CycleOutcome, EmuError>,
    rnd: u8,
) -> bool {
    match step_spec(pre, rnd) {
        Ok(m2) => r matches Ok(out) && post == m2 && out.redraw == spec_redraw(pre)
            && out.timers_active == (m2.delay > 0 || m2.sound > 0),
        Err(e) => r == Err::<CycleOutcome, EmuError>(e) && post == pre,
    }
}

/// The contract of one executed step: some drawn byte explains the observed
/// transition.  For every opcode but the random one the byte is irrelevant.
pub open spec fn cycle_post(pre: Machine, post: Machine, r: Result<CycleOutcome, EmuError>) -> bool {
    exists|rnd: u8| cycle_post_with(pre, post, r, rnd)
}

} // verus!
