use vstd::prelude::*;

verus! {

/// Masking a word with a low-bit mask keeps the remainder, for the masks this crate uses.
pub proof fn lemma_mask_u32(x: u32)
    by (bit_vector)
    ensures
        x & 0x1 == x % 2,
        x & 0x3 == x % 4,
        x & 0x7 == x % 8,
        x & 0xF == x % 16,
        x & 0x1F == x % 32,
        x & 0x3F == x % 64,
        x & 0x7F == x % 128,
        x & 0xFF == x % 0x100,
        x & 0xFFF == x % 0x1000,
        x & 0xFFFF == x % 0x10000,
        x & 0x0007_FFFF == x % 0x80000,
        x & 0x07FF_FFFF == x % 0x0800_0000,
{
}

/// The binary digits of a byte.
pub proof fn lemma_u8_bits(x: u8)
    by (bit_vector)
    ensures
        x & 1 == x % 2,
        x & 2 == 2 * ((x / 2) % 2),
        x & 4 == 4 * ((x / 4) % 2),
        x & 8 == 8 * ((x / 8) % 2),
        x & 16 == 16 * ((x / 16) % 2),
        x & 32 == 32 * ((x / 32) % 2),
        x & 64 == 64 * ((x / 64) % 2),
        x & 128 == 128 * ((x / 128) % 2),
{
}

} // verus!
