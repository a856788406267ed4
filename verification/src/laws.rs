//! The library-wide laws: properties that relate several transitions, or
//! hold of every opcode, proved once and for all over the step semantics.

use vstd::prelude::*;
use crate::EmuError;
use crate::decode::lemma_field_ranges;
use crate::decode::spec_class;
use crate::decode::spec_kk;
use crate::decode::spec_x;
use crate::machine::Machine;
use crate::machine::wf;
use crate::semantics::collision_before;
use crate::semantics::draw_cell;
use crate::semantics::exec_op;
use crate::semantics::hits_before;
use crate::semantics::known_opcode;
use crate::semantics::lemma_draw_cell_bound;
use crate::semantics::lemma_first_pressed_bound;
use crate::semantics::spec_call;
use crate::semantics::spec_cls;
use crate::semantics::spec_draw;
use crate::semantics::spec_ret;
use crate::semantics::spec_skip;
use crate::semantics::sprite_pixel;
use crate::semantics::step_spec;

verus! {

/// Loading an immediate: after any opcode of the `6xkk` pattern executes,
/// `vx` holds `kk` and the program counter has advanced by exactly 2;
/// nothing else changes.
pub proof fn lemma_load_immediate(m: Machine, op: u16, rnd: u8)
    requires
        wf(m),
        spec_class(op) == 6,
    ensures
        exec_op(m, op, rnd) matches Ok(m2) && m2 == (Machine {
            v: m.v.update(spec_x(op) as int, spec_kk(op)),
            pc: m.pc + 2,
            ..m
        }) && m2.v[spec_x(op) as int] == spec_kk(op) && m2.pc == m.pc + 2,
{
    lemma_field_ranges(op);
    assert(op != 0x00E0 && op != 0x00EE) by (bit_vector)
        requires
            (op >> 12) == 6,
    ;
}

/// Call and return round-trip: from any state with a free stack slot,
/// executing a `2nnn` call and then a `00EE` return puts the program counter
/// on the instruction after the call and restores the stack pointer;
/// registers, memory and framebuffer are untouched throughout.
pub proof fn lemma_call_return_round_trip(m: Machine, nnn: u16)
    requires
        wf(m),
        m.sp < 16,
        m.pc + 2 <= 0xFFFF,
    ensures
        spec_call(m, nnn) matches Ok(m1) && spec_ret(m1) matches Ok(m2) && m2.pc == m.pc + 2
            && m2.sp == m.sp && m2.v == m.v && m2.mem == m.mem && m2.fb == m.fb,
{
}

/// Clearing the screen: after `00E0`, every one of the 2048 framebuffer
/// cells is 0, whatever it held before, and the program counter has advanced
/// by 2.
pub proof fn lemma_clear_screen(m: Machine)
    ensures
        forall|p: int| 0 <= p < 2048 ==> !spec_cls(m).fb[p],
        spec_cls(m).pc == m.pc + 2,
        spec_cls(m).v == m.v,
        spec_cls(m).mem == m.mem,
{
}

/// Drawing the same sprite twice at the same coordinates restores the
/// original pixel pattern: the XOR composite is self-inverse.  The
/// coordinate registers must not be `vF`, which the first draw overwrites
/// with the collision flag.
pub proof fn lemma_draw_twice_restores(m: Machine, x: int, y: int, n: int)
    requires
        wf(m),
        0 <= x < 15,
        0 <= y < 15,
        0 <= n < 16,
        m.i + n <= 4096,
    ensures
        spec_draw(m, x, y, n) matches Ok(m1) && spec_draw(m1, x, y, n) matches Ok(m2) && m2.fb
            == m.fb,
{
    let vx = m.v[x] as int;
    let vy = m.v[y] as int;
    let m1 = spec_draw(m, x, y, n)->Ok_0;
    let m2 = spec_draw(m1, x, y, n)->Ok_0;
    assert(m1.v[x] == m.v[x] && m1.v[y] == m.v[y]);
    assert forall|idx: int| 0 <= idx < 2048 implies m2.fb[idx] == m.fb[idx] by {}
    assert(m2.fb =~= m.fb);
}

/// The second of two identical draws reports a collision whenever some set
/// sprite bit landed on a clear cell the first time: that cell is set after
/// the first draw, so the second finds it.
pub proof fn lemma_draw_twice_collides(m: Machine, x: int, y: int, n: int)
    requires
        wf(m),
        0 <= x < 15,
        0 <= y < 15,
        0 <= n < 16,
        m.i + n <= 4096,
        exists|r: int, c: int|
            0 <= r < n && 0 <= c < 8 && sprite_pixel(m.mem[m.i + r], c) && !m.fb[draw_cell(
                m.v[x] as int,
                m.v[y] as int,
                r,
                c,
            )],
    ensures
        spec_draw(m, x, y, n) matches Ok(m1) && spec_draw(m1, x, y, n) matches Ok(m2) && m2.v[15]
            == 1,
{
    let vx = m.v[x] as int;
    let vy = m.v[y] as int;
    let m1 = spec_draw(m, x, y, n)->Ok_0;
    let (r, c) = choose|r: int, c: int|
        0 <= r < n && 0 <= c < 8 && sprite_pixel(m.mem[m.i + r], c) && !m.fb[draw_cell(
            vx,
            vy,
            r,
            c,
        )];
    let cell = draw_cell(vx, vy, r, c);
    lemma_draw_cell_bound(vx, vy, r, c);
    assert(hits_before(m.mem, m.i as int, vx, vy, cell, n, 0));
    assert(m1.fb[cell] == !m.fb[cell]);
    assert(m1.v[x] == m.v[x] && m1.v[y] == m.v[y]);
    assert(collision_before(m1.mem, m1.i as int, vx, vy, m1.fb, n, 0));
}

/// Dispatch is complete: every 16-bit opcode word either matches one of the
/// 35 recognized patterns or takes the unknown-instruction path, which skips
/// it; no word is silently ignored or stuck.
pub proof fn lemma_dispatch_complete(m: Machine, op: u16, rnd: u8)
    ensures
        known_opcode(op) || exec_op(m, op, rnd) == Ok::<Machine, EmuError>(spec_skip(m)),
{
}

/// Every successful step preserves well-formedness: sizes stay fixed and
/// every bounded quantity stays in range, whatever the instruction.
pub proof fn lemma_step_preserves_wf(m: Machine, rnd: u8)
    requires
        wf(m),
    ensures
        step_spec(m, rnd) matches Ok(m2) ==> wf(m2),
{
    match m.waiting {
        Some(wx) => {
            lemma_first_pressed_bound(m.key, 0);
        },
        None => {
            if m.pc + 1 < 4096 {
                let op = crate::decode::spec_opcode_word(m.mem[m.pc], m.mem[m.pc + 1]);
                lemma_field_ranges(op);
            }
        },
    }
}

/// A seventeenth outstanding call overflows: a `2nnn` call from a state with
/// all 16 stack slots in use fails with `StackOverflow` and nothing else.
pub proof fn lemma_call_overflow(m: Machine, nnn: u16)
    requires
        m.sp >= 16,
    ensures
        spec_call(m, nnn) == Err::<Machine, EmuError>(EmuError::StackOverflow),
{
}

} // verus!
