//! A verified CHIP-8 interpreter core: machine state, instruction decoding,
//! and the per-opcode state transitions, with contracts that pin down the
//! semantics of every instruction.

use vstd::prelude::*;

pub mod cycle;
pub mod decode;
pub mod laws;
pub mod machine;
pub mod ops;
mod rng;
pub mod semantics;

verus! {

/// The failure conditions an emulation step can report.
#[derive(Clone, Copy, Debug, PartialEq, Eq, Structural)]
pub enum EmuError {
    /// A fetch or a computed memory address fell outside the 4096-byte memory,
    /// or a computed keypad index fell outside the 16 keys.
    OutOfBounds,
    /// A subroutine call was attempted with all 16 stack slots in use.
    StackOverflow,
    /// A subroutine return was attempted with no call outstanding.
    StackUnderflow,
    /// A program image longer than the 3584 bytes available from 0x200 was offered.
    RomTooLarge,
}

/// What one successful step reports back to the embedding loop.
#[derive(Clone, Copy, Debug, PartialEq, Eq, Structural)]
pub struct CycleOutcome {
    /// The framebuffer was touched: the renderer should redraw.
    pub redraw: bool,
    /// At least one timer is running: the timer driver has work to do.
    pub timers_active: bool,
}

} // verus!
