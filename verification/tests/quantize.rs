use channel_masks::quantize::{clamp_spread_range, quantize, truncate_bit_depth, BIT_DEPTH};

#[test]
fn quantize_gives_zero_below_128_and_255_from_128() {
    for v in 0..=255u8 {
        let q = quantize(v);
        assert!(q == 0 || q == 255);
        assert_eq!(q == 0, v < 128);
    }
}

#[test]
fn quantize_at_the_threshold() {
    assert_eq!(quantize(0), 0);
    assert_eq!(quantize(127), 0);
    assert_eq!(quantize(128), 255);
    assert_eq!(quantize(255), 255);
}

#[test]
fn quantize_is_idempotent() {
    for v in 0..=255u8 {
        assert_eq!(quantize(quantize(v)), quantize(v));
    }
}

#[test]
fn quantize_is_the_one_bit_spread() {
    assert_eq!(BIT_DEPTH, 1);
    for v in 0..=255u8 {
        assert_eq!(quantize(v), clamp_spread_range(v, 1));
    }
}

#[test]
fn truncate_keeps_the_top_bits() {
    assert_eq!(truncate_bit_depth(200, 1), 1);
    assert_eq!(truncate_bit_depth(127, 1), 0);
    assert_eq!(truncate_bit_depth(200, 2), 3);
    assert_eq!(truncate_bit_depth(100, 2), 1);
    assert_eq!(truncate_bit_depth(0b1011_0110, 4), 0b1011);
    assert_eq!(truncate_bit_depth(0b1011_0110, 7), 0b101_1011);
    assert_eq!(truncate_bit_depth(173, 8), 173);
}

#[test]
fn truncate_is_a_right_shift() {
    for depth in 1..=8u8 {
        for v in 0..=255u8 {
            assert_eq!(truncate_bit_depth(v, depth), v >> (8 - depth));
        }
    }
}

#[test]
fn spread_rescales_to_the_full_range() {
    // floor(255 * truncated / (2^depth - 1))
    assert_eq!(clamp_spread_range(100, 2), 85);
    assert_eq!(clamp_spread_range(130, 2), 170);
    assert_eq!(clamp_spread_range(200, 2), 255);
    assert_eq!(clamp_spread_range(63, 2), 0);
    assert_eq!(clamp_spread_range(0b0110_0000, 3), 109);
    assert_eq!(clamp_spread_range(0b1110_0000, 3), 255);
    assert_eq!(clamp_spread_range(0x80, 4), 136);
    assert_eq!(clamp_spread_range(77, 8), 77);
    assert_eq!(clamp_spread_range(255, 8), 255);
}

#[test]
fn spread_matches_the_formula_for_every_depth() {
    for depth in 1..=8u32 {
        for v in 0..=255u32 {
            let truncated = v >> (8 - depth);
            let expected = 255 * truncated / ((1u32 << depth) - 1);
            assert_eq!(clamp_spread_range(v as u8, depth as u8) as u32, expected);
        }
    }
}
