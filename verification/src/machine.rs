//! The machine state: memory, registers, call stack, timers, framebuffer and
//! keypad, together with its mathematical model and the construction of a
//! freshly loaded machine.

use vstd::prelude::*;
use crate::EmuError;

verus! {

/// The mathematical model of the machine state.
///
/// `pc`, `sp` are modelled as unbounded integers so that contracts can speak
/// of arithmetic on them without truncation; the executable counterparts are
/// bounded and every transition keeps them in range.  The transient
/// `current instruction` working register is deliberately not part of the
/// model: it carries no program-visible state.
#[verifier::ext_equal]
pub struct Machine {
    /// 4096 bytes of memory; the font set sits at 0x000..0x050, the loaded
    /// program at 0x200 onward.
    pub mem: Seq<u8>,
    /// The sixteen 8-bit registers `v0`..`vF`; `vF` doubles as the flag register.
    pub v: Seq<u8>,
    /// The 16-bit index register.
    pub i: u16,
    /// The memory offset of the next instruction to fetch.
    pub pc: int,
    /// The 32 x 64 monochrome framebuffer, row-major: row r, column c is
    /// entry `r * 64 + c`.
    pub fb: Seq<bool>,
    /// The delay timer, decremented externally toward zero.
    pub delay: u8,
    /// The sound timer, decremented externally toward zero.
    pub sound: u8,
    /// The sixteen 16-bit return-address slots.
    pub stack: Seq<u16>,
    /// The number of stack slots in use, 0 to 16.
    pub sp: int,
    /// The sixteen key states, indexed by the hex keypad digit.
    pub key: Seq<bool>,
    /// When a wait-for-key instruction is suspended, the register that will
    /// receive the key index.
    pub waiting: Option<u8>,
}

/// Well-formedness of a machine state: every component has its fixed size and
/// every bounded quantity is in range.
pub open spec fn wf(m: Machine) -> bool {
    &&& m.mem.len() == 4096
    &&& m.v.len() == 16
    &&& m.stack.len() == 16
    &&& 0 <= m.sp <= 16
    &&& m.fb.len() == 2048
    &&& m.key.len() == 16
    &&& 0 <= m.pc <= 0xFFFF
    &&& match m.waiting {
        Some(x) => x < 16 && m.pc + 2 <= 0xFFFF,
        None => true,
    }
}

/// The 80-byte font set: 16 glyphs of 5 rows each, for the hex digits 0..F.
pub open spec fn font_seq() -> Seq<u8> {
    seq![
        0xF0u8, 0x90, 0x90, 0x90, 0xF0, // 0
        0x20, 0x60, 0x20, 0x20, 0x70, // 1
        0xF0, 0x10, 0xF0, 0x80, 0xF0, // 2
        0xF0, 0x10, 0xF0, 0x10, 0xF0, // 3
        0x90, 0x90, 0xF0, 0x10, 0x10, // 4
        0xF0, 0x80, 0xF0, 0x10, 0xF0, // 5
        0xF0, 0x80, 0xF0, 0x90, 0xF0, // 6
        0xF0, 0x10, 0x20, 0x40, 0x40, // 7
        0xF0, 0x90, 0xF0, 0x90, 0xF0, // 8
        0xF0, 0x90, 0xF0, 0x10, 0xF0, // 9
        0xF0, 0x90, 0xF0, 0x90, 0x90, // A
        0xE0, 0x90, 0xE0, 0x90, 0xE0, // B
        0xF0, 0x80, 0x80, 0x80, 0xF0, // C
        0xE0, 0x90, 0x90, 0x90, 0xE0, // D
        0xF0, 0x80, 0xF0, 0x80, 0xF0, // E
        0xF0, 0x80, 0xF0, 0x80, 0x80, // F
    ]
}

/// Memory as it stands right after loading: the font set at 0x000, zeroes up
/// to 0x200, the program image from 0x200, zeroes beyond it.
pub open spec fn init_mem(rom: Seq<u8>) -> Seq<u8> {
    Seq::new(
        4096,
        |a: int|
            if 0 <= a < 80 {
                font_seq()[a]
            } else if 0x200 <= a < 0x200 + rom.len() {
                rom[a - 0x200]
            } else {
                0u8
            },
    )
}

/// The machine state right after loading a program image.
pub open spec fn init_machine(rom: Seq<u8>) -> Machine {
    Machine {
        mem: init_mem(rom),
        v: Seq::new(16, |r: int| 0u8),
        i: 0,
        pc: 0x200,
        fb: Seq::new(2048, |p: int| false),
        delay: 0,
        sound: 0,
        stack: Seq::new(16, |s: int| 0u16),
        sp: 0,
        key: Seq::new(16, |k: int| false),
        waiting: None,
    }
}

/// The machine state, exclusively owned by the running emulation session.
///
/// The fields are public so that an embedding can inspect a snapshot (the
/// renderer reads `gfx`, the audio collaborator reads `sound_timer`); all
/// mutation is meant to go through the verified operations, whose contracts
/// preserve `inv`.
#[derive(Debug)]
pub struct Chip8 {
    /// 4096 bytes of memory.
    pub memory: Vec<u8>,
    /// The registers `v0`..`vF`.
    pub v: Vec<u8>,
    /// The index register.
    pub i: u16,
    /// The program counter.
    pub pc: u16,
    /// The framebuffer, row-major, 32 rows of 64 pixels.
    pub gfx: Vec<bool>,
    /// The delay timer.
    pub delay_timer: u8,
    /// The sound timer.
    pub sound_timer: u8,
    /// The return-address stack.
    pub stack: Vec<u16>,
    /// The stack pointer: the number of slots in use.
    pub sp: usize,
    /// The keypad state.
    pub key: Vec<bool>,
    /// The suspended wait-for-key instruction, if any: the register that will
    /// receive the key index.
    pub waiting_key: Option<u8>,
    /// The most recently fetched opcode, held only as working state.
    pub opcode: u16,
}

impl View for Chip8 {
    type V = Machine;

    open spec fn view(&self) -> Machine {
        Machine {
            mem: self.memory@,
            v: self.v@,
            i: self.i,
            pc: self.pc as int,
            fb: self.gfx@,
            delay: self.delay_timer,
            sound: self.sound_timer,
            stack: self.stack@,
            sp: self.sp as int,
            key: self.key@,
            waiting: self.waiting_key,
        }
    }
}

/// A vector of `n` copies of `value`.
fn filled<T: Copy>(count: usize, value: T) -> (r: Vec<T>)
    ensures
        r@ == Seq::new(count as nat, |k: int| value),
{
    let mut r: Vec<T> = Vec::new();
    while r.len() < count
        invariant
            r@.len() <= count,
            forall|k: int| 0 <= k < r@.len() ==> r@[k] == value,
        decreases count - r@.len(),
    {
        r.push(value);
    }
    proof {
        assert(r@ =~= Seq::new(count as nat, |k: int| value));
    }
    r
}

/// The font set as an executable table.
fn font_vec() -> (r: Vec<u8>)
    ensures
        r@ == font_seq(),
{
    let mut r: Vec<u8> = Vec::new();
    r.push(0xF0); r.push(0x90); r.push(0x90); r.push(0x90); r.push(0xF0);
    r.push(0x20); r.push(0x60); r.push(0x20); r.push(0x20); r.push(0x70);
    r.push(0xF0); r.push(0x10); r.push(0xF0); r.push(0x80); r.push(0xF0);
    r.push(0xF0); r.push(0x10); r.push(0xF0); r.push(0x10); r.push(0xF0);
    r.push(0x90); r.push(0x90); r.push(0xF0); r.push(0x10); r.push(0x10);
    r.push(0xF0); r.push(0x80); r.push(0xF0); r.push(0x10); r.push(0xF0);
    r.push(0xF0); r.push(0x80); r.push(0xF0); r.push(0x90); r.push(0xF0);
    r.push(0xF0); r.push(0x10); r.push(0x20); r.push(0x40); r.push(0x40);
    r.push(0xF0); r.push(0x90); r.push(0xF0); r.push(0x90); r.push(0xF0);
    r.push(0xF0); r.push(0x90); r.push(0xF0); r.push(0x10); r.push(0xF0);
    r.push(0xF0); r.push(0x90); r.push(0xF0); r.push(0x90); r.push(0x90);
    r.push(0xE0); r.push(0x90); r.push(0xE0); r.push(0x90); r.push(0xE0);
    r.push(0xF0); r.push(0x80); r.push(0x80); r.push(0x80); r.push(0xF0);
    r.push(0xE0); r.push(0x90); r.push(0x90); r.push(0x90); r.push(0xE0);
    r.push(0xF0); r.push(0x80); r.push(0xF0); r.push(0x80); r.push(0xF0);
    r.push(0xF0); r.push(0x80); r.push(0xF0); r.push(0x80); r.push(0x80);
    proof {
        assert(r@ =~= font_seq());
    }
    r
}

impl Chip8 {
    /// Well-formedness of the machine: all sizes fixed, all indices in range.
    pub open spec fn inv(&self) -> bool {
        wf(self@)
    }

    /// Builds a machine with the font set in low memory and the program image
    /// copied to 0x200.  An image longer than the 3584 bytes available there
    /// is rejected before any state is constructed.
    pub fn new(rom: &Vec<u8>) -> (r: Result<Chip8, EmuError>)
        ensures
            rom@.len() > 3584 ==> r == Err::<Chip8, EmuError>(EmuError::RomTooLarge),
            rom@.len() <= 3584 ==> (r matches Ok(c) && c.inv() && c@ == init_machine(rom@)),
    {
        if rom.len() > 3584 {
            return Err(EmuError::RomTooLarge);
        }
        let mut memory: Vec<u8> = filled(4096, 0u8);
        let font = font_vec();
        let mut k: usize = 0;
        while k < 80
            invariant
                k <= 80,
                font@ == font_seq(),
                memory@.len() == 4096,
                forall|a: int| 0 <= a < k ==> memory@[a] == font_seq()[a],
                forall|a: int| k <= a < 4096 ==> memory@[a] == 0u8,
            decreases 80 - k,
        {
            memory.set(k, font[k]);
            k = k + 1;
        }
        let mut j: usize = 0;
        while j < rom.len()
            invariant
                j <= rom@.len() <= 3584,
                memory@.len() == 4096,
                forall|a: int| 0 <= a < 80 ==> memory@[a] == font_seq()[a],
                forall|a: int| 0x200 <= a < 0x200 + j ==> memory@[a] == rom@[a - 0x200],
                forall|a: int|
                    80 <= a < 4096 && !(0x200 <= a < 0x200 + j) ==> memory@[a] == 0u8,
            decreases rom@.len() - j,
        {
            memory.set(0x200 + j, rom[j]);
            j = j + 1;
        }
        let c = Chip8 {
            memory,
            v: filled(16, 0u8),
            i: 0,
            pc: 0x200,
            gfx: filled(2048, false),
            delay_timer: 0,
            sound_timer: 0,
            stack: filled(16, 0u16),
            sp: 0,
            key: filled(16, false),
            waiting_key: None,
            opcode: 0,
        };
        proof {
            assert(c@.mem =~= init_mem(rom@));
            assert(c@ =~= init_machine(rom@));
        }
        Ok(c)
    }

    /// Records one key state, as reported by the input collaborator.
    pub fn set_key(&mut self, index: usize, pressed: bool)
        requires
            old(self).inv(),
            index < 16,
        ensures
            final(self).inv(),
            final(self)@ == (Machine { key: old(self)@.key.update(index as int, pressed), ..old(self)@ }),
    {
        self.key.set(index, pressed);
    }

    /// One external timer tick: each timer decrements toward zero and stops
    /// there, never wrapping below it.
    pub fn tick_timers(&mut self)
        requires
            old(self).inv(),
        ensures
            final(self).inv(),
            final(self)@ == (Machine {
                delay: if old(self)@.delay > 0 { (old(self)@.delay - 1) as u8 } else { 0u8 },
                sound: if old(self)@.sound > 0 { (old(self)@.sound - 1) as u8 } else { 0u8 },
                ..old(self)@
            }),
    {
        if self.delay_timer > 0 {
            self.delay_timer = self.delay_timer - 1;
        }
        if self.sound_timer > 0 {
            self.sound_timer = self.sound_timer - 1;
        }
    }
}

} // verus!
