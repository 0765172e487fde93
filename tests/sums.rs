use age_jit::sum::{blocked_sum, load_word_le, reference_sum};
use age_jit::swar::swar_word_sum;

fn naive_word_sum(w: u64) -> u64 {
    (0..8).map(|k| (w >> (8 * k)) & 0xff).sum()
}

fn pseudo_random_bytes(len: usize, seed: u64) -> Vec<u8> {
    let mut state = seed;
    (0..len)
        .map(|_| {
            state = state.wrapping_mul(6364136223846793005).wrapping_add(1442695040888963407);
            (state >> 56) as u8
        })
        .collect()
}

#[test]
fn swar_all_zero_word() {
    assert_eq!(swar_word_sum(0), 0);
}

#[test]
fn swar_all_ff_word() {
    assert_eq!(swar_word_sum(u64::MAX), 2040);
}

#[test]
fn swar_matches_naive_on_sample_words() {
    let mut w: u64 = 0x0123_4567_89ab_cdef;
    for _ in 0..1000 {
        assert_eq!(swar_word_sum(w), naive_word_sum(w));
        w = w.wrapping_mul(6364136223846793005).wrapping_add(1442695040888963407);
    }
    assert_eq!(swar_word_sum(0x0102_0304_0506_0708), 36);
}

#[test]
fn load_word_is_little_endian() {
    let data = [1u8, 2, 3, 4, 5, 6, 7, 8, 9];
    assert_eq!(load_word_le(&data, 0), 0x0807_0605_0403_0201);
    assert_eq!(load_word_le(&data, 1), 0x0908_0706_0504_0302);
}

#[test]
fn empty_buffer_sums_to_zero() {
    assert_eq!(reference_sum(&[]), 0);
    assert_eq!(blocked_sum(&[]), 0);
}

#[test]
fn three_bytes_sum_to_six() {
    assert_eq!(reference_sum(&[1, 2, 3]), 6);
    assert_eq!(blocked_sum(&[1, 2, 3]), 6);
}

#[test]
fn seventeen_ff_bytes() {
    let data = [0xffu8; 17];
    assert_eq!(reference_sum(&data), 4335);
    assert_eq!(blocked_sum(&data), 4335);
}

#[test]
fn thousand_sevens_through_blocks() {
    let data = vec![7u8; 1000];
    assert_eq!(blocked_sum(&data), 7000);
    assert_eq!(reference_sum(&data), 7000);
}

#[test]
fn five_bytes_through_tail_only() {
    let data = [10u8, 20, 30, 40, 50];
    assert_eq!(blocked_sum(&data), 150);
    assert_eq!(reference_sum(&data), 150);
}

#[test]
fn blocked_matches_reference_at_boundary_lengths() {
    for (i, len) in [0usize, 1, 15, 16, 17, 31, 32, 33, 4097, 65_537, 100_003].iter().enumerate() {
        let data = pseudo_random_bytes(*len, i as u64 + 1);
        let naive: u64 = data.iter().map(|&b| b as u64).sum();
        assert_eq!(reference_sum(&data), naive);
        assert_eq!(blocked_sum(&data), naive);
    }
}
