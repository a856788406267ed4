//! The cycle driver: exactly one fetch-decode-execute step per call, with
//! the contract that ties the executable machine to the mathematical step
//! semantics.

use vstd::prelude::*;
use crate::CycleOutcome;
use crate::EmuError;
use crate::decode::class;
use crate::decode::kk;
use crate::decode::n;
use crate::decode::nnn;
use crate::decode::opcode_word;
use crate::decode::x;
use crate::decode::y;
use crate::machine::Chip8;
use crate::machine::Machine;
use crate::rng::random_byte;
use crate::semantics::cycle_post;
use crate::semantics::cycle_post_with;
use crate::semantics::exec_op;
use crate::semantics::spec_redraw;
use crate::semantics::spec_resume;
use crate::semantics::step_spec;

verus! {

/// What a running emulation offers its embedding: one instruction per call,
/// and the keypad snapshot it executes against.
pub trait Emulation {
    /// Whether the machine is well formed.
    spec fn emu_inv(&self) -> bool;

    /// The mathematical machine state.
    spec fn machine(&self) -> Machine;

    /// Runs exactly one fetch-decode-execute step.  On success the machine
    /// follows the step semantics for some drawn random byte and the outcome
    /// carries the redraw and timer hints; on failure the machine is
    /// unchanged and the error names the fatal condition.
    fn emulate_cycle(&mut self) -> (r: Result<CycleOutcome, EmuError>)
        requires
            old(self).emu_inv(),
        ensures
            final(self).emu_inv(),
            cycle_post(old(self).machine(), final(self).machine(), r),
    ;

    /// Records the whole keypad, as reported by the input source before a
    /// cycle; nothing else changes.
    fn set_keys(&mut self, keys: &Vec<bool>)
        requires
            old(self).emu_inv(),
            keys@.len() == 16,
        ensures
            final(self).emu_inv(),
            final(self).machine() == (Machine { key: keys@, ..old(self).machine() }),
    ;
}

impl Emulation for Chip8 {
    open spec fn emu_inv(&self) -> bool {
        self.inv()
    }

    open spec fn machine(&self) -> Machine {
        self@
    }

    #[verifier::rlimit(100)]
    fn emulate_cycle(&mut self) -> (r: Result<CycleOutcome, EmuError>) {
        let ghost pre = self@;
        if let Some(wx) = self.waiting_key {
            let pressed = self.first_pressed_key();
            match pressed {
                Some(k) => {
                    self.v.set(wx as usize, k);
                    self.waiting_key = None;
                    self.pc = self.pc + 2;
                },
                None => {},
            }
            let out = CycleOutcome {
                redraw: false,
                timers_active: self.delay_timer > 0 || self.sound_timer > 0,
            };
            proof {
                assert(self@ =~= spec_resume(pre, wx as int));
                assert(cycle_post_with(pre, self@, Ok(out), 0u8));
            }
            return Ok(out);
        }
        if self.pc >= 4095 {
            proof {
                assert(cycle_post_with(
                    pre,
                    self@,
                    Err::<CycleOutcome, EmuError>(EmuError::OutOfBounds),
                    0u8,
                ));
            }
            return Err(EmuError::OutOfBounds);
        }
        let pcu = self.pc as usize;
        let hi_byte = self.memory[pcu];
        let lo_byte = self.memory[pcu + 1];
        let op = opcode_word(hi_byte, lo_byte);
        self.opcode = op;
        proof {
            assert(self@ =~= pre);
        }
        let redraw = op == 0x00E0 || class(op) == 0xD;
        let xr = x(op);
        let yr = y(op);
        let kv = kk(op);
        let nv = n(op);
        let nn = nnn(op);
        let cls = class(op);
        let ghost mut rnd_w: u8 = 0u8;
        let step_r: Result<(), EmuError> = if op == 0x00E0 {
            self.op_00e0();
            Ok(())
        } else if op == 0x00EE {
            self.op_00ee()
        } else if cls == 0x1 {
            self.op_1nnn(nn);
            Ok(())
        } else if cls == 0x2 {
            self.op_2nnn(nn)
        } else if cls == 0x3 {
            self.op_3xnn(xr, kv);
            Ok(())
        } else if cls == 0x4 {
            self.op_4xnn(xr, kv);
            Ok(())
        } else if cls == 0x5 {
            if nv == 0 {
                self.op_5xy0(xr, yr);
            } else {
                self.op_unknown();
            }
            Ok(())
        } else if cls == 0x6 {
            self.op_6xnn(xr, kv);
            Ok(())
        } else if cls == 0x7 {
            self.op_7xnn(xr, kv);
            Ok(())
        } else if cls == 0x8 {
            if nv == 0 {
                self.op_8xy0(xr, yr);
            } else if nv == 1 {
                self.op_8xy1(xr, yr);
            } else if nv == 2 {
                self.op_8xy2(xr, yr);
            } else if nv == 3 {
                self.op_8xy3(xr, yr);
            } else if nv == 4 {
                self.op_8xy4(xr, yr);
            } else if nv == 5 {
                self.op_8xy5(xr, yr);
            } else if nv == 6 {
                self.op_8xy6(xr);
            } else if nv == 7 {
                self.op_8xy7(xr, yr);
            } else if nv == 0xE {
                self.op_8xye(xr);
            } else {
                self.op_unknown();
            }
            Ok(())
        } else if cls == 0x9 {
            if nv == 0 {
                self.op_9xy0(xr, yr);
            } else {
                self.op_unknown();
            }
            Ok(())
        } else if cls == 0xA {
            self.op_annn(nn);
            Ok(())
        } else if cls == 0xB {
            self.op_bnnn(nn);
            Ok(())
        } else if cls == 0xC {
            let rb = random_byte();
            proof {
                rnd_w = rb;
            }
            self.op_cxnn(xr, kv, rb);
            Ok(())
        } else if cls == 0xD {
            self.op_dxyn(xr, yr, nv)
        } else if cls == 0xE {
            if kv == 0x9E {
                self.op_ex9e(xr)
            } else if kv == 0xA1 {
                self.op_exa1(xr)
            } else {
                self.op_unknown();
                Ok(())
            }
        } else if cls == 0xF {
            if kv == 0x07 {
                self.op_fx07(xr);
                Ok(())
            } else if kv == 0x0A {
                self.op_fx0a(xr);
                Ok(())
            } else if kv == 0x15 {
                self.op_fx15(xr);
                Ok(())
            } else if kv == 0x18 {
                self.op_fx18(xr);
                Ok(())
            } else if kv == 0x1E {
                self.op_fx1e(xr);
                Ok(())
            } else if kv == 0x29 {
                self.op_fx29(xr);
                Ok(())
            } else if kv == 0x33 {
                self.op_fx33(xr)
            } else if kv == 0x55 {
                self.op_fx55(xr)
            } else if kv == 0x65 {
                self.op_fx65(xr)
            } else {
                self.op_unknown();
                Ok(())
            }
        } else {
            self.op_unknown();
            Ok(())
        };
        match step_r {
            Ok(u) => {
                let out = CycleOutcome {
                    redraw,
                    timers_active: self.delay_timer > 0 || self.sound_timer > 0,
                };
                proof {
                    assert(exec_op(pre, op, rnd_w) matches Ok(m2) && self@ == m2);
                    assert(step_spec(pre, rnd_w) matches Ok(m2) && self@ == m2);
                    assert(out.redraw == spec_redraw(pre));
                    assert(cycle_post_with(pre, self@, Ok(out), rnd_w));
                }
                Ok(out)
            },
            Err(e) => {
                proof {
                    assert(exec_op(pre, op, rnd_w) == Err::<Machine, EmuError>(e));
                    assert(cycle_post_with(pre, self@, Err::<CycleOutcome, EmuError>(e), rnd_w));
                }
                Err(e)
            },
        }
    }

    fn set_keys(&mut self, keys: &Vec<bool>) {
        let mut k: usize = 0;
        while k < 16
            invariant
                old(self).inv(),
                keys@.len() == 16,
                k <= 16,
                self.key@.len() == 16,
                forall|q: int| 0 <= q < k ==> self.key@[q] == keys@[q],
                self.memory@ == old(self).memory@,
                self.v@ == old(self).v@,
                self.i == old(self).i,
                self.pc == old(self).pc,
                self.gfx@ == old(self).gfx@,
                self.delay_timer == old(self).delay_timer,
                self.sound_timer == old(self).sound_timer,
                self.stack@ == old(self).stack@,
                self.sp == old(self).sp,
                self.waiting_key == old(self).waiting_key,
            decreases 16 - k,
        {
            let pressed = keys[k];
            self.key.set(k, pressed);
            k = k + 1;
        }
        proof {
            assert(self@.key =~= keys@);
            assert(self@ =~= (Machine { key: keys@, ..old(self)@ }));
        }
    }
}

} // verus!
