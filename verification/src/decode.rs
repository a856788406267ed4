//! Decoding of a 16-bit opcode word into its canonical operand fields.
//!
//! Every handler reads its operands through these functions, so the
//! bit-masking conventions are defined exactly once.

use vstd::prelude::*;

verus! {

/// The 16-bit opcode assembled from the two bytes at the program counter,
/// high byte first.
pub open spec fn spec_opcode_word(hi: u8, lo: u8) -> u16 {
    ((hi as u16) << 8) | (lo as u16)
}

/// `nnn`: the low 12 bits, an address operand.
pub open spec fn spec_nnn(op: u16) -> u16 {
    op & 0x0FFF
}

/// `n`: the low 4 bits, a nibble operand such as a sprite height.
pub open spec fn spec_n(op: u16) -> u16 {
    op & 0x000F
}

/// `x`: bits 8 to 11, the first register index.
pub open spec fn spec_x(op: u16) -> u16 {
    (op >> 8) & 0x000F
}

/// `y`: bits 4 to 7, the second register index.
pub open spec fn spec_y(op: u16) -> u16 {
    (op >> 4) & 0x000F
}

/// `kk`: the low 8 bits, an immediate byte.
pub open spec fn spec_kk(op: u16) -> u8 {
    (op & 0x00FF) as u8
}

/// The high nibble, bits 12 to 15, on which the top-level dispatch branches.
pub open spec fn spec_class(op: u16) -> u16 {
    op >> 12
}

/// The operand fields lie in the ranges their widths dictate.
pub proof fn lemma_field_ranges(op: u16)
    by (bit_vector)
    ensures
        spec_nnn(op) < 0x1000,
        spec_n(op) < 16,
        spec_x(op) < 16,
        spec_y(op) < 16,
        spec_class(op) < 16,
{
}

/// Assembles the opcode word from the two bytes at the program counter.
pub fn opcode_word(hi: u8, lo: u8) -> (op: u16)
    ensures
        op == spec_opcode_word(hi, lo),
{
    ((hi as u16) << 8) | (lo as u16)
}

/// Extracts the address operand `nnn`.
pub fn nnn(op: u16) -> (r: u16)
    ensures
        r == spec_nnn(op),
        r < 0x1000,
{
    proof {
        lemma_field_ranges(op);
    }
    op & 0x0FFF
}

/// Extracts the nibble operand `n`.
pub fn n(op: u16) -> (r: u16)
    ensures
        r == spec_n(op),
        r < 16,
{
    proof {
        lemma_field_ranges(op);
    }
    op & 0x000F
}

/// Extracts the first register index `x`.
pub fn x(op: u16) -> (r: u16)
    ensures
        r == spec_x(op),
        r < 16,
{
    proof {
        lemma_field_ranges(op);
    }
    (op >> 8) & 0x000F
}

/// Extracts the second register index `y`.
pub fn y(op: u16) -> (r: u16)
    ensures
        r == spec_y(op),
        r < 16,
{
    proof {
        lemma_field_ranges(op);
    }
    (op >> 4) & 0x000F
}

/// Extracts the immediate byte `kk`.
pub fn kk(op: u16) -> (r: u8)
    ensures
        r == spec_kk(op),
{
    (op & 0x00FF) as u8
}

/// Extracts the high nibble that selects the opcode class.
pub fn class(op: u16) -> (r: u16)
    ensures
        r == spec_class(op),
        r < 16,
{
    proof {
        lemma_field_ranges(op);
    }
    op >> 12
}

} // verus!
