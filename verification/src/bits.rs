//! Facts about the bit operations with which opcodes are fetched and decoded
//! and registers are shifted.
use vstd::prelude::*;

verus! {

/// Two bytes joined big endian.
pub proof fn lemma_join_bytes(hi: u8, lo: u8)
    ensures
        ((hi as u16) << 8u16) | (lo as u16) == hi as int * 256 + lo as int,
{
    assert(((hi as u16) << 8u16) | (lo as u16) == (hi as u16) * 256 + (lo as u16)) by (bit_vector);
}

/// The masks and shifts that take an opcode apart, in arithmetic terms.
pub proof fn lemma_decode(op: u16)
    ensures
        op & 0xF000 == (op / 0x1000) * 0x1000,
        op / 0x1000 < 16,
        (op & 0x0F00) >> 8u16 == (op / 0x100) % 0x10,
        (op & 0x00F0) >> 4u16 == (op / 0x10) % 0x10,
        op & 0x000F == op % 0x10,
        op & 0x00FF == op % 0x100,
        op & 0x0FFF == op % 0x1000,
{
    assert(op & 0xF000 == (op / 0x1000) * 0x1000) by (bit_vector);
    assert((op & 0x0F00) >> 8u16 == (op / 0x100) % 0x10) by (bit_vector);
    assert((op & 0x00F0) >> 4u16 == (op / 0x10) % 0x10) by (bit_vector);
    assert(op & 0x000F == op % 0x10) by (bit_vector);
    assert(op & 0x00FF == op % 0x100) by (bit_vector);
    assert(op & 0x0FFF == op % 0x1000) by (bit_vector);
}

/// The shifts of 8XY6 and 8XYE, in arithmetic terms.
pub proof fn lemma_shifts(b: u8)
    ensures
        (b << 7u8) >> 7u8 == b % 2,
        b >> 1u8 == b / 2,
        b >> 7u8 == b / 128,
        b << 1u8 == (b * 2) % 256,
{
    assert((b << 7u8) >> 7u8 == b % 2) by (bit_vector);
    assert(b >> 1u8 == b / 2) by (bit_vector);
    assert(b >> 7u8 == b / 128) by (bit_vector);
    assert(b << 1u8 == (b * 2) % 256) by (bit_vector);
}

/// Flipping a pixel that is off or on leaves it off or on.
pub proof fn lemma_flip_pixel(g: u8)
    requires
        g <= 1,
    ensures
        g ^ 1u8 <= 1,
        g ^ 1u8 == 1 - g,
{
    assert(g <= 1 ==> g ^ 1u8 <= 1) by (bit_vector);
    assert(g <= 1 ==> g ^ 1u8 == 1 - g) by (bit_vector);
}

/// Flipping a byte's low bit twice gives it back.
pub proof fn lemma_flip_twice(g: u8)
    ensures
        (g ^ 1u8) ^ 1u8 == g,
{
    assert((g ^ 1u8) ^ 1u8 == g) by (bit_vector);
}

/// A byte masked by `nn` has no bit outside `nn`.
pub proof fn lemma_mask(r: u8, nn: u8)
    ensures
        (r & nn) & !nn == 0,
        r & nn <= nn,
{
    assert((r & nn) & !nn == 0) by (bit_vector);
    assert(r & nn <= nn) by (bit_vector);
}

} // verus!
