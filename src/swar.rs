//! Summing the eight bytes of a 64-bit word inside the register.
use vstd::prelude::*;

verus! {

/// Mask that keeps the even-position bytes of a word.
pub const MASK_BYTES: u64 = 0x00FF_00FF_00FF_00FF;

/// Mask that keeps the even-position 16-bit lanes of a word.
pub const MASK_HALVES: u64 = 0x0000_FFFF_0000_FFFF;

/// Mask that keeps the low 32-bit lane of a word.
pub const MASK_LOW: u64 = 0x0000_0000_FFFF_FFFF;

/// Byte `k` (0 = least significant) of `w`.
pub open spec fn byte_of(w: u64, k: u64) -> u64 {
    (w >> (8 * k)) & 0xff
}

/// The sum of the eight bytes of `w`, taken one at a time.
pub open spec fn word_byte_sum(w: u64) -> int {
    byte_of(w, 0) + byte_of(w, 1) + byte_of(w, 2) + byte_of(w, 3) + byte_of(w, 4)
        + byte_of(w, 5) + byte_of(w, 6) + byte_of(w, 7)
}

/// The three mask-and-add rounds, at lane widths 8, 16 and 32.
pub open spec fn swar_rounds(w: u64) -> u64 {
    let pairs = ((w & MASK_BYTES) + ((w >> 8u64) & MASK_BYTES)) as u64;
    let quads = ((pairs & MASK_HALVES) + ((pairs >> 16u64) & MASK_HALVES)) as u64;
    ((quads & MASK_LOW) + (quads >> 32u64)) as u64
}

/// The SWAR rounds never overflow a lane and leave the byte sum in the word.
pub proof fn lemma_swar_rounds_sum(w: u64)
    ensures
        swar_rounds(w) as int == word_byte_sum(w),
        swar_rounds(w) <= 2040,
{
    assert(swar_rounds(w) as int == word_byte_sum(w)) by (bit_vector);
    assert(word_byte_sum(w) <= 2040) by (bit_vector);
}

/// Sums the eight bytes of `w` with masked, shifted additions.
pub fn swar_word_sum(w: u64) -> (r: u64)
    ensures
        r as int == word_byte_sum(w),
        r == swar_rounds(w),
        r <= 2040,
{
    proof {
        lemma_swar_rounds_sum(w);
    }
    let lo = w & MASK_BYTES;
    let hi = (w >> 8u64) & MASK_BYTES;
    assert(lo + hi < 0x1_0000_0000_0000_0000) by (bit_vector)
        requires
            lo == w & MASK_BYTES,
            hi == (w >> 8u64) & MASK_BYTES,
    ;
    let pairs = lo + hi;
    let lo16 = pairs & MASK_HALVES;
    let hi16 = (pairs >> 16u64) & MASK_HALVES;
    assert(lo16 + hi16 < 0x1_0000_0000_0000_0000) by (bit_vector)
        requires
            lo16 == pairs & MASK_HALVES,
            hi16 == (pairs >> 16u64) & MASK_HALVES,
    ;
    let quads = lo16 + hi16;
    let lo32 = quads & MASK_LOW;
    let hi32 = quads >> 32u64;
    assert(lo32 + hi32 < 0x1_0000_0000_0000_0000) by (bit_vector)
        requires
            lo32 == quads & MASK_LOW,
            hi32 == quads >> 32u64,
    ;
    lo32 + hi32
}

} // verus!
