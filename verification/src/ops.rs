//! The executable instruction handlers, one per opcode pattern, each proved
//! against its spec transition.  Control-transfer handlers set the program
//! counter directly; every other handler advances it by 2 (or 4 for a taken
//! skip).

use vstd::prelude::*;
use crate::EmuError;
use crate::machine::Chip8;
use crate::machine::Machine;
use crate::semantics::first_pressed;
use crate::semantics::lemma_first_pressed_bound;
use crate::semantics::spec_add_byte;
use crate::semantics::spec_add_carry;
use crate::semantics::spec_add_i;
use crate::semantics::spec_and_reg;
use crate::semantics::spec_bcd;
use crate::semantics::spec_call;
use crate::semantics::spec_cls;
use crate::semantics::spec_jp;
use crate::semantics::spec_jp_v0;
use crate::semantics::spec_ld_byte;
use crate::semantics::spec_ld_dt;
use crate::semantics::spec_ld_font;
use crate::semantics::spec_ld_from_dt;
use crate::semantics::spec_ld_i;
use crate::semantics::spec_ld_reg;
use crate::semantics::spec_ld_st;
use crate::semantics::spec_load_regs;
use crate::semantics::spec_or_reg;
use crate::semantics::spec_ret;
use crate::semantics::spec_rnd;
use crate::semantics::spec_se_byte;
use crate::semantics::spec_se_reg;
use crate::semantics::spec_shl;
use crate::semantics::spec_shr;
use crate::semantics::spec_skip;
use crate::semantics::spec_skp;
use crate::semantics::spec_sknp;
use crate::semantics::spec_sne_byte;
use crate::semantics::spec_sne_reg;
use crate::semantics::collision_before;
use crate::semantics::draw_cell;
use crate::semantics::draw_fb;
use crate::semantics::hits_before;
use crate::semantics::lemma_cell_unhit;
use crate::semantics::lemma_collision_row_end;
use crate::semantics::lemma_collision_step;
use crate::semantics::lemma_draw_cell_bound;
use crate::semantics::lemma_hits_row_end;
use crate::semantics::lemma_hits_step;
use crate::semantics::spec_draw;
use crate::semantics::sprite_pixel;
use crate::semantics::spec_store_regs;
use crate::semantics::spec_sub_borrow;
use crate::semantics::spec_subn_borrow;
use crate::semantics::spec_wait_key;
use crate::semantics::spec_xor_reg;

verus! {

impl Chip8 {
    /// The lowest pressed key, if any key is down.
    pub fn first_pressed_key(&self) -> (r: Option<u8>)
        requires
            self.inv(),
        ensures
            r == first_pressed(self@.key, 0),
            r matches Some(k) ==> k < 16,
    {
        proof {
            lemma_first_pressed_bound(self@.key, 0);
        }
        let mut k: usize = 0;
        while k < 16
            invariant
                self.inv(),
                k <= 16,
                first_pressed(self@.key, 0) == first_pressed(self@.key, k as int),
            decreases 16 - k,
        {
            if self.key[k] {
                return Some(k as u8);
            }
            k = k + 1;
        }
        None
    }

    /// An unrecognized instruction: skip it, so the session can continue.
    pub fn op_unknown(&mut self)
        requires
            old(self).inv(),
            old(self)@.waiting is None,
            old(self)@.pc + 2 <= 0xFFFF,
        ensures
            final(self).inv(),
            final(self)@ == spec_skip(old(self)@),
    {
        self.pc = self.pc + 2;
    }

    /// `00E0`: clear the framebuffer.
    pub fn op_00e0(&mut self)
        requires
            old(self).inv(),
            old(self)@.waiting is None,
            old(self)@.pc + 2 <= 0xFFFF,
        ensures
            final(self).inv(),
            final(self)@ == spec_cls(old(self)@),
    {
        let mut p: usize = 0;
        while p < 2048
            invariant
                self.gfx@.len() == 2048,
                p <= 2048,
                forall|q: int| 0 <= q < p ==> self.gfx@[q] == false,
                self.memory@ == old(self).memory@,
                self.v@ == old(self).v@,
                self.i == old(self).i,
                self.pc == old(self).pc,
                self.delay_timer == old(self).delay_timer,
                self.sound_timer == old(self).sound_timer,
                self.stack@ == old(self).stack@,
                self.sp == old(self).sp,
                self.key@ == old(self).key@,
                self.waiting_key == old(self).waiting_key,
            decreases 2048 - p,
        {
            self.gfx.set(p, false);
            p = p + 1;
        }
        self.pc = self.pc + 2;
        proof {
            assert(self@.fb =~= Seq::new(2048, |q: int| false));
            assert(self@ =~= spec_cls(old(self)@));
        }
    }

    /// `00EE`: return from subroutine.
    pub fn op_00ee(&mut self) -> (r: Result<(), EmuError>)
        requires
            old(self).inv(),
            old(self)@.waiting is None,
        ensures
            final(self).inv(),
            match r {
                Ok(u) => spec_ret(old(self)@) matches Ok(m2) && final(self)@ == m2,
                Err(e) => spec_ret(old(self)@) == Err::<Machine, EmuError>(e) && final(self)@
                    == old(self)@,
            },
    {
        if self.sp == 0 {
            return Err(EmuError::StackUnderflow);
        }
        self.sp = self.sp - 1;
        self.pc = self.stack[self.sp];
        Ok(())
    }

    /// `1nnn`: jump.
    pub fn op_1nnn(&mut self, nnn: u16)
        requires
            old(self).inv(),
            old(self)@.waiting is None,
        ensures
            final(self).inv(),
            final(self)@ == spec_jp(old(self)@, nnn),
    {
        self.pc = nnn;
    }

    /// `2nnn`: call subroutine.
    pub fn op_2nnn(&mut self, nnn: u16) -> (r: Result<(), EmuError>)
        requires
            old(self).inv(),
            old(self)@.waiting is None,
            old(self)@.pc + 2 <= 0xFFFF,
        ensures
            final(self).inv(),
            match r {
                Ok(u) => spec_call(old(self)@, nnn) matches Ok(m2) && final(self)@ == m2,
                Err(e) => spec_call(old(self)@, nnn) == Err::<Machine, EmuError>(e) && final(self)@
                    == old(self)@,
            },
    {
        if self.sp >= 16 {
            return Err(EmuError::StackOverflow);
        }
        self.stack.set(self.sp, self.pc + 2);
        self.sp = self.sp + 1;
        self.pc = nnn;
        Ok(())
    }

    /// `3xkk`: skip when `vx == kk`.
    pub fn op_3xnn(&mut self, x: u16, kk: u8)
        requires
            old(self).inv(),
            old(self)@.waiting is None,
            x < 16,
            old(self)@.pc + 4 <= 0xFFFF,
        ensures
            final(self).inv(),
            final(self)@ == spec_se_byte(old(self)@, x as int, kk),
    {
        if self.v[x as usize] == kk {
            self.pc = self.pc + 4;
        } else {
            self.pc = self.pc + 2;
        }
    }

    /// `4xkk`: skip when `vx != kk`.
    pub fn op_4xnn(&mut self, x: u16, kk: u8)
        requires
            old(self).inv(),
            old(self)@.waiting is None,
            x < 16,
            old(self)@.pc + 4 <= 0xFFFF,
        ensures
            final(self).inv(),
            final(self)@ == spec_sne_byte(old(self)@, x as int, kk),
    {
        if self.v[x as usize] != kk {
            self.pc = self.pc + 4;
        } else {
            self.pc = self.pc + 2;
        }
    }

    /// `5xy0`: skip when `vx == vy`.
    pub fn op_5xy0(&mut self, x: u16, y: u16)
        requires
            old(self).inv(),
            old(self)@.waiting is None,
            x < 16,
            y < 16,
            old(self)@.pc + 4 <= 0xFFFF,
        ensures
            final(self).inv(),
            final(self)@ == spec_se_reg(old(self)@, x as int, y as int),
    {
        if self.v[x as usize] == self.v[y as usize] {
            self.pc = self.pc + 4;
        } else {
            self.pc = self.pc + 2;
        }
    }

    /// `9xy0`: skip when `vx != vy`.
    pub fn op_9xy0(&mut self, x: u16, y: u16)
        requires
            old(self).inv(),
            old(self)@.waiting is None,
            x < 16,
            y < 16,
            old(self)@.pc + 4 <= 0xFFFF,
        ensures
            final(self).inv(),
            final(self)@ == spec_sne_reg(old(self)@, x as int, y as int),
    {
        if self.v[x as usize] != self.v[y as usize] {
            self.pc = self.pc + 4;
        } else {
            self.pc = self.pc + 2;
        }
    }

    /// `6xkk`: load the immediate byte into `vx`.
    pub fn op_6xnn(&mut self, x: u16, kk: u8)
        requires
            old(self).inv(),
            old(self)@.waiting is None,
            x < 16,
            old(self)@.pc + 2 <= 0xFFFF,
        ensures
            final(self).inv(),
            final(self)@ == spec_ld_byte(old(self)@, x as int, kk),
    {
        self.v.set(x as usize, kk);
        self.pc = self.pc + 2;
    }

    /// `7xkk`: add the immediate byte to `vx`, wrapping modulo 256.
    pub fn op_7xnn(&mut self, x: u16, kk: u8)
        requires
            old(self).inv(),
            old(self)@.waiting is None,
            x < 16,
            old(self)@.pc + 2 <= 0xFFFF,
        ensures
            final(self).inv(),
            final(self)@ == spec_add_byte(old(self)@, x as int, kk),
    {
        let sum: u16 = self.v[x as usize] as u16 + kk as u16;
        self.v.set(x as usize, (sum % 256) as u8);
        self.pc = self.pc + 2;
    }

    /// `8xy0`: copy `vy` into `vx`.
    pub fn op_8xy0(&mut self, x: u16, y: u16)
        requires
            old(self).inv(),
            old(self)@.waiting is None,
            x < 16,
            y < 16,
            old(self)@.pc + 2 <= 0xFFFF,
        ensures
            final(self).inv(),
            final(self)@ == spec_ld_reg(old(self)@, x as int, y as int),
    {
        let vy = self.v[y as usize];
        self.v.set(x as usize, vy);
        self.pc = self.pc + 2;
    }

    /// `8xy1`: bitwise OR.
    pub fn op_8xy1(&mut self, x: u16, y: u16)
        requires
            old(self).inv(),
            old(self)@.waiting is None,
            x < 16,
            y < 16,
            old(self)@.pc + 2 <= 0xFFFF,
        ensures
            final(self).inv(),
            final(self)@ == spec_or_reg(old(self)@, x as int, y as int),
    {
        let r = self.v[x as usize] | self.v[y as usize];
        self.v.set(x as usize, r);
        self.pc = self.pc + 2;
    }

    /// `8xy2`: bitwise AND.
    pub fn op_8xy2(&mut self, x: u16, y: u16)
        requires
            old(self).inv(),
            old(self)@.waiting is None,
            x < 16,
            y < 16,
            old(self)@.pc + 2 <= 0xFFFF,
        ensures
            final(self).inv(),
            final(self)@ == spec_and_reg(old(self)@, x as int, y as int),
    {
        let r = self.v[x as usize] & self.v[y as usize];
        self.v.set(x as usize, r);
        self.pc = self.pc + 2;
    }

    /// `8xy3`: bitwise XOR.
    pub fn op_8xy3(&mut self, x: u16, y: u16)
        requires
            old(self).inv(),
            old(self)@.waiting is None,
            x < 16,
            y < 16,
            old(self)@.pc + 2 <= 0xFFFF,
        ensures
            final(self).inv(),
            final(self)@ == spec_xor_reg(old(self)@, x as int, y as int),
    {
        let r = self.v[x as usize] ^ self.v[y as usize];
        self.v.set(x as usize, r);
        self.pc = self.pc + 2;
    }

    /// `8xy4`: add with carry; the flag is written before the destination.
    pub fn op_8xy4(&mut self, x: u16, y: u16)
        requires
            old(self).inv(),
            old(self)@.waiting is None,
            x < 16,
            y < 16,
            old(self)@.pc + 2 <= 0xFFFF,
        ensures
            final(self).inv(),
            final(self)@ == spec_add_carry(old(self)@, x as int, y as int),
    {
        let sum: u16 = self.v[x as usize] as u16 + self.v[y as usize] as u16;
        let flag: u8 = if sum > 255 {
            1
        } else {
            0
        };
        self.v.set(15, flag);
        self.v.set(x as usize, (sum % 256) as u8);
        self.pc = self.pc + 2;
    }

    /// `8xy5`: subtract with borrow; the flag is 1 exactly when no borrow
    /// occurs, and is written before the destination.
    pub fn op_8xy5(&mut self, x: u16, y: u16)
        requires
            old(self).inv(),
            old(self)@.waiting is None,
            x < 16,
            y < 16,
            old(self)@.pc + 2 <= 0xFFFF,
        ensures
            final(self).inv(),
            final(self)@ == spec_sub_borrow(old(self)@, x as int, y as int),
    {
        let vx = self.v[x as usize];
        let vy = self.v[y as usize];
        let flag: u8 = if vx >= vy {
            1
        } else {
            0
        };
        let diff: u8 = (((vx as u16 + 256) - vy as u16) % 256) as u8;
        proof {
            assert(((vx as u16 + 256) - vy as u16) % 256 == (vx - vy) % 256) by (bit_vector);
        }
        self.v.set(15, flag);
        self.v.set(x as usize, diff);
        self.pc = self.pc + 2;
    }

    /// `8xy6`: shift `vx` right; the flag receives the old low bit first.
    pub fn op_8xy6(&mut self, x: u16)
        requires
            old(self).inv(),
            old(self)@.waiting is None,
            x < 16,
            old(self)@.pc + 2 <= 0xFFFF,
        ensures
            final(self).inv(),
            final(self)@ == spec_shr(old(self)@, x as int),
    {
        let vx = self.v[x as usize];
        self.v.set(15, vx & 1);
        self.v.set(x as usize, vx >> 1);
        self.pc = self.pc + 2;
    }

    /// `8xy7`: reverse subtract with borrow: `vx` becomes `vy - vx`.
    pub fn op_8xy7(&mut self, x: u16, y: u16)
        requires
            old(self).inv(),
            old(self)@.waiting is None,
            x < 16,
            y < 16,
            old(self)@.pc + 2 <= 0xFFFF,
        ensures
            final(self).inv(),
            final(self)@ == spec_subn_borrow(old(self)@, x as int, y as int),
    {
        let vx = self.v[x as usize];
        let vy = self.v[y as usize];
        let flag: u8 = if vy >= vx {
            1
        } else {
            0
        };
        let diff: u8 = (((vy as u16 + 256) - vx as u16) % 256) as u8;
        proof {
            assert(((vy as u16 + 256) - vx as u16) % 256 == (vy - vx) % 256) by (bit_vector);
        }
        self.v.set(15, flag);
        self.v.set(x as usize, diff);
        self.pc = self.pc + 2;
    }

    /// `8xyE`: shift `vx` left; the flag receives the old high bit first.
    pub fn op_8xye(&mut self, x: u16)
        requires
            old(self).inv(),
            old(self)@.waiting is None,
            x < 16,
            old(self)@.pc + 2 <= 0xFFFF,
        ensures
            final(self).inv(),
            final(self)@ == spec_shl(old(self)@, x as int),
    {
        let vx = self.v[x as usize];
        self.v.set(15, vx >> 7);
        self.v.set(x as usize, vx << 1);
        self.pc = self.pc + 2;
    }

    /// `Annn`: load the index register.
    pub fn op_annn(&mut self, nnn: u16)
        requires
            old(self).inv(),
            old(self)@.waiting is None,
            old(self)@.pc + 2 <= 0xFFFF,
        ensures
            final(self).inv(),
            final(self)@ == spec_ld_i(old(self)@, nnn),
    {
        self.i = nnn;
        self.pc = self.pc + 2;
    }

    /// `Bnnn`: jump to `nnn + v0`.
    pub fn op_bnnn(&mut self, nnn: u16)
        requires
            old(self).inv(),
            old(self)@.waiting is None,
            nnn < 0x1000,
        ensures
            final(self).inv(),
            final(self)@ == spec_jp_v0(old(self)@, nnn),
    {
        self.pc = nnn + self.v[0] as u16;
    }

    /// `Cxkk`: load a random byte masked by `kk`; the caller supplies the
    /// drawn byte.
    pub fn op_cxnn(&mut self, x: u16, kk: u8, rnd: u8)
        requires
            old(self).inv(),
            old(self)@.waiting is None,
            x < 16,
            old(self)@.pc + 2 <= 0xFFFF,
        ensures
            final(self).inv(),
            final(self)@ == spec_rnd(old(self)@, x as int, kk, rnd),
    {
        self.v.set(x as usize, rnd & kk);
        self.pc = self.pc + 2;
    }

    /// `Dxyn`: draw an `n`-row sprite read from `memory[i..i+n]` at the
    /// coordinates held in `vx` and `vy`, XOR-compositing with wraparound on
    /// both axes; `vF` reports whether any set pixel was cleared.
    pub fn op_dxyn(&mut self, x: u16, y: u16, n: u16) -> (r: Result<(), EmuError>)
        requires
            old(self).inv(),
            old(self)@.waiting is None,
            x < 16,
            y < 16,
            n < 16,
            old(self)@.pc + 2 <= 0xFFFF,
        ensures
            final(self).inv(),
            match r {
                Ok(u) => spec_draw(old(self)@, x as int, y as int, n as int) matches Ok(m2)
                    && final(self)@ == m2,
                Err(e) => spec_draw(old(self)@, x as int, y as int, n as int) == Err::<
                    Machine,
                    EmuError,
                >(e) && final(self)@ == old(self)@,
            },
    {
        if self.i as usize + n as usize > 4096 {
            return Err(EmuError::OutOfBounds);
        }
        let vx = self.v[x as usize];
        let vy = self.v[y as usize];
        let ghost i0 = self@.i as int;
        let ghost vx0 = vx as int;
        let ghost vy0 = vy as int;
        let ghost mem0 = self@.mem;
        let ghost fb0 = self@.fb;
        let mut collided = false;
        let mut rr: u16 = 0;
        while rr < n
            invariant
                old(self).inv(),
                x < 16,
                y < 16,
                n < 16,
                i0 == old(self)@.i as int,
                mem0 == old(self)@.mem,
                fb0 == old(self)@.fb,
                vx0 == old(self)@.v[x as int] as int,
                vy0 == old(self)@.v[y as int] as int,
                vx == old(self)@.v[x as int],
                vy == old(self)@.v[y as int],
                i0 + n <= 4096,
                rr <= n,
                self.gfx@.len() == 2048,
                forall|idx: int|
                    0 <= idx < 2048 ==> self.gfx@[idx] == (if hits_before(
                        mem0,
                        i0,
                        vx0,
                        vy0,
                        idx,
                        rr as int,
                        0,
                    ) {
                        !fb0[idx]
                    } else {
                        fb0[idx]
                    }),
                collided == collision_before(mem0, i0, vx0, vy0, fb0, rr as int, 0),
                self.memory@ == old(self).memory@,
                self.v@ == old(self).v@,
                self.i == old(self).i,
                self.pc == old(self).pc,
                self.delay_timer == old(self).delay_timer,
                self.sound_timer == old(self).sound_timer,
                self.stack@ == old(self).stack@,
                self.sp == old(self).sp,
                self.key@ == old(self).key@,
                self.waiting_key == old(self).waiting_key,
            decreases n - rr,
        {
            let row: u8 = self.memory[self.i as usize + rr as usize];
            let mut cc: u16 = 0;
            while cc < 8
                invariant
                    old(self).inv(),
                    x < 16,
                    y < 16,
                    n < 16,
                    i0 == old(self)@.i as int,
                    mem0 == old(self)@.mem,
                    fb0 == old(self)@.fb,
                    vx0 == old(self)@.v[x as int] as int,
                    vy0 == old(self)@.v[y as int] as int,
                    vx == old(self)@.v[x as int],
                    vy == old(self)@.v[y as int],
                    i0 + n <= 4096,
                    rr < n,
                    cc <= 8,
                    row == mem0[i0 + rr],
                    self.gfx@.len() == 2048,
                    forall|idx: int|
                        0 <= idx < 2048 ==> self.gfx@[idx] == (if hits_before(
                            mem0,
                            i0,
                            vx0,
                            vy0,
                            idx,
                            rr as int,
                            cc as int,
                        ) {
                            !fb0[idx]
                        } else {
                            fb0[idx]
                        }),
                    collided == collision_before(mem0, i0, vx0, vy0, fb0, rr as int, cc as int),
                    self.memory@ == old(self).memory@,
                    self.v@ == old(self).v@,
                    self.i == old(self).i,
                    self.pc == old(self).pc,
                    self.delay_timer == old(self).delay_timer,
                    self.sound_timer == old(self).sound_timer,
                    self.stack@ == old(self).stack@,
                    self.sp == old(self).sp,
                    self.key@ == old(self).key@,
                    self.waiting_key == old(self).waiting_key,
                decreases 8 - cc,
            {
                let pixel_set = (row >> ((7 - cc) as u8)) & 1 == 1;
                proof {
                    assert(pixel_set == sprite_pixel(mem0[i0 + rr], cc as int));
                }
                if pixel_set {
                    let cell_row: usize = ((vy as u16 + rr) % 32) as usize;
                    let cell_col: usize = ((vx as u16 + cc) % 64) as usize;
                    let idx: usize = cell_row * 64 + cell_col;
                    proof {
                        lemma_draw_cell_bound(vx0, vy0, rr as int, cc as int);
                        assert(cell_row == (vy0 + rr) % 32);
                        assert(cell_col == (vx0 + cc) % 64);
                        assert(idx == draw_cell(vx0, vy0, rr as int, cc as int));
                        lemma_cell_unhit(mem0, i0, vx0, vy0, rr as int, cc as int);
                    }
                    let old_px = self.gfx[idx];
                    if old_px {
                        collided = true;
                    }
                    self.gfx.set(idx, !old_px);
                    proof {
                        assert(old_px == fb0[idx as int]);
                        assert forall|idx2: int| 0 <= idx2 < 2048 implies self.gfx@[idx2] == (
                        if hits_before(mem0, i0, vx0, vy0, idx2, rr as int, cc + 1) {
                            !fb0[idx2]
                        } else {
                            fb0[idx2]
                        }) by {
                            lemma_hits_step(mem0, i0, vx0, vy0, idx2, rr as int, cc as int);
                        }
                        lemma_collision_step(mem0, i0, vx0, vy0, fb0, rr as int, cc as int);
                    }
                } else {
                    proof {
                        assert forall|idx2: int| 0 <= idx2 < 2048 implies self.gfx@[idx2] == (
                        if hits_before(mem0, i0, vx0, vy0, idx2, rr as int, cc + 1) {
                            !fb0[idx2]
                        } else {
                            fb0[idx2]
                        }) by {
                            lemma_hits_step(mem0, i0, vx0, vy0, idx2, rr as int, cc as int);
                        }
                        lemma_collision_step(mem0, i0, vx0, vy0, fb0, rr as int, cc as int);
                    }
                }
                cc = cc + 1;
            }
            proof {
                assert forall|idx2: int| 0 <= idx2 < 2048 implies self.gfx@[idx2] == (
                if hits_before(mem0, i0, vx0, vy0, idx2, rr + 1, 0) {
                    !fb0[idx2]
                } else {
                    fb0[idx2]
                }) by {
                    lemma_hits_row_end(mem0, i0, vx0, vy0, idx2, rr as int);
                }
                lemma_collision_row_end(mem0, i0, vx0, vy0, fb0, rr as int);
            }
            rr = rr + 1;
        }
        self.v.set(
            15,
            if collided {
                1
            } else {
                0
            },
        );
        self.pc = self.pc + 2;
        proof {
            assert(self@.fb =~= draw_fb(old(self)@, vx0, vy0, n as int));
            assert(spec_draw(old(self)@, x as int, y as int, n as int) matches Ok(m2) && self@
                =~= m2);
        }
        Ok(())
    }

    /// `Ex9E`: skip when the key indexed by `vx` is pressed.
    pub fn op_ex9e(&mut self, x: u16) -> (r: Result<(), EmuError>)
        requires
            old(self).inv(),
            old(self)@.waiting is None,
            x < 16,
            old(self)@.pc + 4 <= 0xFFFF,
        ensures
            final(self).inv(),
            match r {
                Ok(u) => spec_skp(old(self)@, x as int) matches Ok(m2) && final(self)@ == m2,
                Err(e) => spec_skp(old(self)@, x as int) == Err::<Machine, EmuError>(e) && final(self)@ == old(self)@,
            },
    {
        let vx = self.v[x as usize];
        if vx >= 16 {
            return Err(EmuError::OutOfBounds);
        }
        if self.key[vx as usize] {
            self.pc = self.pc + 4;
        } else {
            self.pc = self.pc + 2;
        }
        Ok(())
    }

    /// `ExA1`: skip when the key indexed by `vx` is not pressed.
    pub fn op_exa1(&mut self, x: u16) -> (r: Result<(), EmuError>)
        requires
            old(self).inv(),
            old(self)@.waiting is None,
            x < 16,
            old(self)@.pc + 4 <= 0xFFFF,
        ensures
            final(self).inv(),
            match r {
                Ok(u) => spec_sknp(old(self)@, x as int) matches Ok(m2) && final(self)@ == m2,
                Err(e) => spec_sknp(old(self)@, x as int) == Err::<Machine, EmuError>(e) && final(self)@ == old(self)@,
            },
    {
        let vx = self.v[x as usize];
        if vx >= 16 {
            return Err(EmuError::OutOfBounds);
        }
        if !self.key[vx as usize] {
            self.pc = self.pc + 4;
        } else {
            self.pc = self.pc + 2;
        }
        Ok(())
    }

    /// `Fx07`: read the delay timer into `vx`.
    pub fn op_fx07(&mut self, x: u16)
        requires
            old(self).inv(),
            old(self)@.waiting is None,
            x < 16,
            old(self)@.pc + 2 <= 0xFFFF,
        ensures
            final(self).inv(),
            final(self)@ == spec_ld_from_dt(old(self)@, x as int),
    {
        let dt = self.delay_timer;
        self.v.set(x as usize, dt);
        self.pc = self.pc + 2;
    }

    /// `Fx0A`: wait for a key press, suspending when none is down.
    pub fn op_fx0a(&mut self, x: u16)
        requires
            old(self).inv(),
            old(self)@.waiting is None,
            x < 16,
            old(self)@.pc + 2 <= 0xFFFF,
        ensures
            final(self).inv(),
            final(self)@ == spec_wait_key(old(self)@, x as int),
    {
        let pressed = self.first_pressed_key();
        match pressed {
            Some(k) => {
                self.v.set(x as usize, k);
                self.pc = self.pc + 2;
            },
            None => {
                self.waiting_key = Some(x as u8);
            },
        }
    }

    /// `Fx15`: load `vx` into the delay timer.
    pub fn op_fx15(&mut self, x: u16)
        requires
            old(self).inv(),
            old(self)@.waiting is None,
            x < 16,
            old(self)@.pc + 2 <= 0xFFFF,
        ensures
            final(self).inv(),
            final(self)@ == spec_ld_dt(old(self)@, x as int),
    {
        self.delay_timer = self.v[x as usize];
        self.pc = self.pc + 2;
    }

    /// `Fx18`: load `vx` into the sound timer.
    pub fn op_fx18(&mut self, x: u16)
        requires
            old(self).inv(),
            old(self)@.waiting is None,
            x < 16,
            old(self)@.pc + 2 <= 0xFFFF,
        ensures
            final(self).inv(),
            final(self)@ == spec_ld_st(old(self)@, x as int),
    {
        self.sound_timer = self.v[x as usize];
        self.pc = self.pc + 2;
    }

    /// `Fx1E`: add `vx` to the index register, wrapping in 16 bits.
    pub fn op_fx1e(&mut self, x: u16)
        requires
            old(self).inv(),
            old(self)@.waiting is None,
            x < 16,
            old(self)@.pc + 2 <= 0xFFFF,
        ensures
            final(self).inv(),
            final(self)@ == spec_add_i(old(self)@, x as int),
    {
        let sum: u32 = self.i as u32 + self.v[x as usize] as u32;
        self.i = (sum % 0x10000) as u16;
        self.pc = self.pc + 2;
    }

    /// `Fx29`: point the index register at the font glyph for the digit in
    /// `vx`.
    pub fn op_fx29(&mut self, x: u16)
        requires
            old(self).inv(),
            old(self)@.waiting is None,
            x < 16,
            old(self)@.pc + 2 <= 0xFFFF,
        ensures
            final(self).inv(),
            final(self)@ == spec_ld_font(old(self)@, x as int),
    {
        self.i = 5 * (self.v[x as usize] as u16);
        self.pc = self.pc + 2;
    }

    /// `Fx33`: store the three decimal digits of `vx` at `memory[i..i+3]`.
    pub fn op_fx33(&mut self, x: u16) -> (r: Result<(), EmuError>)
        requires
            old(self).inv(),
            old(self)@.waiting is None,
            x < 16,
            old(self)@.pc + 2 <= 0xFFFF,
        ensures
            final(self).inv(),
            match r {
                Ok(u) => spec_bcd(old(self)@, x as int) matches Ok(m2) && final(self)@ == m2,
                Err(e) => spec_bcd(old(self)@, x as int) == Err::<Machine, EmuError>(e) && final(self)@ == old(self)@,
            },
    {
        if self.i as usize + 3 > 4096 {
            return Err(EmuError::OutOfBounds);
        }
        let base = self.i as usize;
        let val = self.v[x as usize];
        self.memory.set(base, val / 100);
        self.memory.set(base + 1, (val / 10) % 10);
        self.memory.set(base + 2, val % 10);
        self.pc = self.pc + 2;
        Ok(())
    }

    /// `Fx55`: copy `v0..vx` inclusive to `memory[i..]`; the index register
    /// is unchanged afterward.
    pub fn op_fx55(&mut self, x: u16) -> (r: Result<(), EmuError>)
        requires
            old(self).inv(),
            old(self)@.waiting is None,
            x < 16,
            old(self)@.pc + 2 <= 0xFFFF,
        ensures
            final(self).inv(),
            match r {
                Ok(u) => spec_store_regs(old(self)@, x as int) matches Ok(m2) && final(self)@
                    == m2,
                Err(e) => spec_store_regs(old(self)@, x as int) == Err::<Machine, EmuError>(e)
                    && final(self)@ == old(self)@,
            },
    {
        if self.i as usize + x as usize + 1 > 4096 {
            return Err(EmuError::OutOfBounds);
        }
        let base = self.i as usize;
        let mut r: usize = 0;
        while r < x as usize + 1
            invariant
                old(self).inv(),
            old(self)@.waiting is None,
                x < 16,
                base == old(self)@.i,
                base + x + 1 <= 4096,
                r <= x + 1,
                self.memory@.len() == 4096,
                forall|a: int| base <= a < base + r ==> self.memory@[a] == old(self)@.v[a - base],
                forall|a: int|
                    0 <= a < 4096 && !(base <= a < base + r) ==> self.memory@[a] == old(
                        self,
                    )@.mem[a],
                self.v@ == old(self).v@,
                self.i == old(self).i,
                self.pc == old(self).pc,
                self.gfx@ == old(self).gfx@,
                self.delay_timer == old(self).delay_timer,
                self.sound_timer == old(self).sound_timer,
                self.stack@ == old(self).stack@,
                self.sp == old(self).sp,
                self.key@ == old(self).key@,
                self.waiting_key == old(self).waiting_key,
            decreases x + 1 - r,
        {
            let vr = self.v[r];
            self.memory.set(base + r, vr);
            r = r + 1;
        }
        self.pc = self.pc + 2;
        proof {
            assert(self@.mem =~= Seq::new(
                4096,
                |a: int|
                    if old(self)@.i <= a <= old(self)@.i + x {
                        old(self)@.v[a - old(self)@.i]
                    } else {
                        old(self)@.mem[a]
                    },
            ));
            assert(spec_store_regs(old(self)@, x as int) matches Ok(m2) && self@ =~= m2);
        }
        Ok(())
    }

    /// `Fx65`: copy `memory[i..]` into `v0..vx` inclusive; the index register
    /// is unchanged afterward.
    pub fn op_fx65(&mut self, x: u16) -> (r: Result<(), EmuError>)
        requires
            old(self).inv(),
            old(self)@.waiting is None,
            x < 16,
            old(self)@.pc + 2 <= 0xFFFF,
        ensures
            final(self).inv(),
            match r {
                Ok(u) => spec_load_regs(old(self)@, x as int) matches Ok(m2) && final(self)@ == m2,
                Err(e) => spec_load_regs(old(self)@, x as int) == Err::<Machine, EmuError>(e)
                    && final(self)@ == old(self)@,
            },
    {
        if self.i as usize + x as usize + 1 > 4096 {
            return Err(EmuError::OutOfBounds);
        }
        let base = self.i as usize;
        let mut r: usize = 0;
        while r < x as usize + 1
            invariant
                old(self).inv(),
            old(self)@.waiting is None,
                x < 16,
                base == old(self)@.i,
                base + x + 1 <= 4096,
                r <= x + 1,
                self.v@.len() == 16,
                forall|q: int| 0 <= q < r ==> self.v@[q] == old(self)@.mem[base + q],
                forall|q: int| r <= q < 16 ==> self.v@[q] == old(self)@.v[q],
                self.memory@ == old(self).memory@,
                self.i == old(self).i,
                self.pc == old(self).pc,
                self.gfx@ == old(self).gfx@,
                self.delay_timer == old(self).delay_timer,
                self.sound_timer == old(self).sound_timer,
                self.stack@ == old(self).stack@,
                self.sp == old(self).sp,
                self.key@ == old(self).key@,
                self.waiting_key == old(self).waiting_key,
            decreases x + 1 - r,
        {
            let b = self.memory[base + r];
            self.v.set(r, b);
            r = r + 1;
        }
        self.pc = self.pc + 2;
        proof {
            assert(self@.v =~= Seq::new(
                16,
                |q: int|
                    if q <= x {
                        old(self)@.mem[old(self)@.i + q]
                    } else {
                        old(self)@.v[q]
                    },
            ));
            assert(spec_load_regs(old(self)@, x as int) matches Ok(m2) && self@ =~= m2);
        }
        Ok(())
    }
}

} // verus!
