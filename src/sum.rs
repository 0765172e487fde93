//! The sum of a byte buffer: the plain fold and the blocked loop.
use vstd::prelude::*;
use crate::swar::{byte_of, word_byte_sum, swar_word_sum};

verus! {

/// The sum of the first `n` bytes of `s`, folded one byte at a time.
pub open spec fn sum_prefix(s: Seq<u8>, n: int) -> int
    decreases n,
{
    if n <= 0 {
        0
    } else {
        sum_prefix(s, n - 1) + s[n - 1] as int
    }
}

/// The sum of all bytes of `s`.
pub open spec fn byte_sum(s: Seq<u8>) -> int {
    sum_prefix(s, s.len() as int)
}

/// A buffer whose byte sum fits in 64 bits, whatever its contents.
pub open spec fn sum_fits(len: int) -> bool {
    len * 255 <= u64::MAX
}

/// A prefix sum grows by at most 255 per byte and never goes negative.
pub proof fn lemma_sum_prefix_bounds(s: Seq<u8>, n: int)
    requires
        0 <= n,
    ensures
        0 <= sum_prefix(s, n) <= 255 * n,
    decreases n,
{
    if n > 0 {
        lemma_sum_prefix_bounds(s, n - 1);
    }
}

/// A prefix sum is monotone in its length.
pub proof fn lemma_sum_prefix_monotone(s: Seq<u8>, m: int, n: int)
    requires
        0 <= m <= n,
    ensures
        sum_prefix(s, m) <= sum_prefix(s, n),
    decreases n - m,
{
    if m < n {
        lemma_sum_prefix_monotone(s, m, n - 1);
    }
}

/// Eight more bytes add exactly those eight bytes.
pub proof fn lemma_sum_prefix_eight(s: Seq<u8>, i: int)
    requires
        0 <= i,
    ensures
        sum_prefix(s, i + 8) == sum_prefix(s, i) + s[i] + s[i + 1] + s[i + 2] + s[i + 3] + s[i
            + 4] + s[i + 5] + s[i + 6] + s[i + 7],
{
    assert(sum_prefix(s, i + 1) == sum_prefix(s, i) + s[i]);
    assert(sum_prefix(s, i + 2) == sum_prefix(s, i + 1) + s[i + 1]);
    assert(sum_prefix(s, i + 3) == sum_prefix(s, i + 2) + s[i + 2]);
    assert(sum_prefix(s, i + 4) == sum_prefix(s, i + 3) + s[i + 3]);
    assert(sum_prefix(s, i + 5) == sum_prefix(s, i + 4) + s[i + 4]);
    assert(sum_prefix(s, i + 6) == sum_prefix(s, i + 5) + s[i + 5]);
    assert(sum_prefix(s, i + 7) == sum_prefix(s, i + 6) + s[i + 6]);
    assert(sum_prefix(s, i + 8) == sum_prefix(s, i + 7) + s[i + 7]);
}

/// Sums the bytes of `data` one at a time.
pub fn reference_sum(data: &[u8]) -> (r: u64)
    requires
        sum_fits(data@.len() as int),
    ensures
        r as int == byte_sum(data@),
{
    let len = data.len();
    let mut acc: u64 = 0;
    let mut i: usize = 0;
    while i < len
        invariant
            len == data@.len(),
            sum_fits(len as int),
            i <= len,
            acc as int == sum_prefix(data@, i as int),
        decreases len - i,
    {
        proof {
            lemma_sum_prefix_bounds(data@, i as int + 1);
        }
        acc = acc + data[i] as u64;
        i = i + 1;
    }
    acc
}

/// The little-endian 64-bit word made of bytes `i` to `i + 7` of `s`.
pub open spec fn le_word(s: Seq<u8>, i: int) -> u64 {
    (s[i] as u64) | ((s[i + 1] as u64) << 8u64) | ((s[i + 2] as u64) << 16u64) | ((s[i + 3] as u64)
        << 24u64) | ((s[i + 4] as u64) << 32u64) | ((s[i + 5] as u64) << 40u64) | ((s[i
        + 6] as u64) << 48u64) | ((s[i + 7] as u64) << 56u64)
}

/// Reads the little-endian 64-bit word that starts at byte `i` of `data`.
pub fn load_word_le(data: &[u8], i: usize) -> (r: u64)
    requires
        i + 8 <= data@.len(),
    ensures
        r == le_word(data@, i as int),
        forall|k: int| 0 <= k < 8 ==> #[trigger] byte_of(r, k as u64) == data@[i + k] as u64,
        word_byte_sum(r) == data@[i as int] + data@[i + 1] + data@[i + 2] + data@[i + 3]
            + data@[i + 4] + data@[i + 5] + data@[i + 6] + data@[i + 7],
{
    let b0 = data[i] as u64;
    let b1 = data[i + 1] as u64;
    let b2 = data[i + 2] as u64;
    let b3 = data[i + 3] as u64;
    let b4 = data[i + 4] as u64;
    let b5 = data[i + 5] as u64;
    let b6 = data[i + 6] as u64;
    let b7 = data[i + 7] as u64;
    let w = b0 | (b1 << 8u64) | (b2 << 16u64) | (b3 << 24u64) | (b4 << 32u64) | (b5 << 40u64) | (
    b6 << 48u64) | (b7 << 56u64);
    assert(byte_of(w, 0) == b0 && byte_of(w, 1) == b1 && byte_of(w, 2) == b2 && byte_of(w, 3)
        == b3 && byte_of(w, 4) == b4 && byte_of(w, 5) == b5 && byte_of(w, 6) == b6 && byte_of(w, 7)
        == b7) by (bit_vector)
        requires
            b0 <= 255 && b1 <= 255 && b2 <= 255 && b3 <= 255 && b4 <= 255 && b5 <= 255 && b6 <= 255
                && b7 <= 255,
            w == b0 | (b1 << 8u64) | (b2 << 16u64) | (b3 << 24u64) | (b4 << 32u64) | (b5 << 40u64)
                | (b6 << 48u64) | (b7 << 56u64),
    ;
    assert forall|k: int| 0 <= k < 8 implies #[trigger] byte_of(w, k as u64) == data@[i + k] as u64 by {
        if k == 0 {
        } else if k == 1 {
        } else if k == 2 {
        } else if k == 3 {
        } else if k == 4 {
        } else if k == 5 {
        } else if k == 6 {
        } else {
        }
    }
    w
}

/// Sums `data` the way the blocked kernel does: sixteen bytes per step as two
/// words reduced in the register, then the last 0 to 15 bytes one at a time.
pub fn blocked_sum(data: &[u8]) -> (r: u64)
    requires
        sum_fits(data@.len() as int),
    ensures
        r as int == byte_sum(data@),
{
    let len = data.len();
    let mut acc: u64 = 0;
    let mut i: usize = 0;
    while len - i >= 16
        invariant
            len == data@.len(),
            sum_fits(len as int),
            i <= len,
            acc as int == sum_prefix(data@, i as int),
        decreases len - i,
    {
        let w1 = load_word_le(data, i);
        let w2 = load_word_le(data, i + 8);
        let s1 = swar_word_sum(w1);
        let s2 = swar_word_sum(w2);
        proof {
            lemma_sum_prefix_eight(data@, i as int);
            lemma_sum_prefix_eight(data@, i as int + 8);
            lemma_sum_prefix_bounds(data@, i as int + 16);
        }
        acc = acc + (s1 + s2);
        i = i + 16;
    }
    while i < len
        invariant
            len == data@.len(),
            sum_fits(len as int),
            i <= len,
            acc as int == sum_prefix(data@, i as int),
        decreases len - i,
    {
        proof {
            lemma_sum_prefix_bounds(data@, i as int + 1);
        }
        acc = acc + data[i] as u64;
        i = i + 1;
    }
    acc
}

} // verus!
