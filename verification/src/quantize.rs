//! Bit-depth reduction of a single channel value.

use vstd::arithmetic::power2::{lemma2_to64, pow2};
use vstd::bits::lemma_u8_shr_is_div;
use vstd::prelude::*;

verus! {

/// The bit depth every channel is reduced to.
pub const BIT_DEPTH: u8 = 1;

/// The top `bit_depth` bits of `value`, as a number below `2^bit_depth`.
pub open spec fn truncated(value: u8, bit_depth: u8) -> int {
    value as int / pow2((8 - bit_depth) as nat) as int
}

/// `truncated` stretched linearly so that the largest truncated value becomes 255.
pub open spec fn spread(value: u8, bit_depth: u8) -> int {
    255 * truncated(value, bit_depth) / (pow2(bit_depth as nat) - 1)
}

/// The one-bit reduction of a channel value, rescaled to the full byte range.
pub open spec fn quantized(value: u8) -> u8 {
    spread(value, BIT_DEPTH) as u8
}

/// Facts about the powers of two that occur for depths one to eight.
proof fn lemma_small_powers()
    ensures
        pow2(0) == 1,
        pow2(1) == 2,
        pow2(2) == 4,
        pow2(3) == 8,
        pow2(4) == 16,
        pow2(5) == 32,
        pow2(6) == 64,
        pow2(7) == 128,
        pow2(8) == 256,
{
    lemma2_to64();
}

/// A truncated value is a number of `bit_depth` bits.
pub proof fn lemma_truncated_range(value: u8, bit_depth: u8)
    requires
        1 <= bit_depth <= 8,
    ensures
        0 <= truncated(value, bit_depth) < pow2(bit_depth as nat),
        2 <= pow2(bit_depth as nat) <= 256,
{
    lemma_small_powers();
    let low: int = pow2((8 - bit_depth) as nat) as int;
    let high: int = pow2(bit_depth as nat) as int;
    let v: int = value as int;
    if bit_depth == 1 {
        assert(low == 128 && high == 2 && v / 128 < 2);
    } else if bit_depth == 2 {
        assert(low == 64 && high == 4 && v / 64 < 4);
    } else if bit_depth == 3 {
        assert(low == 32 && high == 8 && v / 32 < 8);
    } else if bit_depth == 4 {
        assert(low == 16 && high == 16 && v / 16 < 16);
    } else if bit_depth == 5 {
        assert(low == 8 && high == 32 && v / 8 < 32);
    } else if bit_depth == 6 {
        assert(low == 4 && high == 64 && v / 4 < 64);
    } else if bit_depth == 7 {
        assert(low == 2 && high == 128 && v / 2 < 128);
    } else {
        assert(low == 1 && high == 256 && v / 1 < 256);
    }
}

/// A spread value fits a byte.
pub proof fn lemma_spread_range(value: u8, bit_depth: u8)
    requires
        1 <= bit_depth <= 8,
    ensures
        0 <= spread(value, bit_depth) <= 255,
{
    lemma_truncated_range(value, bit_depth);
    let t = truncated(value, bit_depth);
    let d = pow2(bit_depth as nat) - 1;
    assert(0 <= 255 * t / d <= 255) by (nonlinear_arith)
        requires
            0 <= t <= d,
            d >= 1,
    ;
}

/// Keeps the top `bit_depth` bits of `value` and drops the rest.
pub fn truncate_bit_depth(value: u8, bit_depth: u8) -> (r: u8)
    requires
        1 <= bit_depth <= 8,
    ensures
        r == truncated(value, bit_depth),
        r == value >> ((8 - bit_depth) as u8),
{
    let shift: u8 = 8 - bit_depth;
    proof {
        lemma_u8_shr_is_div(value, shift);
    }
    value >> shift
}

/// Reduces `value` to `bit_depth` bits and rescales the result to 0..=255.
pub fn clamp_spread_range(value: u8, bit_depth: u8) -> (r: u8)
    requires
        1 <= bit_depth <= 8,
    ensures
        r == spread(value, bit_depth),
{
    let top: u32 = truncate_bit_depth(value, bit_depth) as u32;
    let levels: u32 = 1u32 << bit_depth;
    proof {
        lemma_truncated_range(value, bit_depth);
        lemma_spread_range(value, bit_depth);
        lemma_small_powers();
        assert(levels == pow2(bit_depth as nat)) by {
            vstd::bits::lemma_u32_shl_is_mul(1u32, bit_depth as u32);
        }
    }
    (255 * top / (levels - 1)) as u8
}

/// Reduces a channel value to one bit: 0 below 128, 255 from 128 on.
pub fn quantize(value: u8) -> (r: u8)
    ensures
        r == quantized(value),
        r == 0 || r == 255,
        r == 0 <==> value < 128,
{
    proof {
        lemma_quantized_binary(value);
    }
    clamp_spread_range(value, BIT_DEPTH)
}

/// A quantized value is 0 or 255, and it is 0 exactly for values below 128.
pub proof fn lemma_quantized_binary(value: u8)
    ensures
        quantized(value) == 0 || quantized(value) == 255,
        quantized(value) == 0 <==> value < 128,
        quantized(value) == (if value < 128 { 0u8 } else { 255u8 }),
{
    lemma_small_powers();
    assert(pow2((8 - BIT_DEPTH) as nat) == 128);
    assert(pow2(BIT_DEPTH as nat) - 1 == 1);
    assert(truncated(value, BIT_DEPTH) == value as int / 128);
    assert(spread(value, BIT_DEPTH) == 255 * (value as int / 128));
}

/// Quantizing twice gives what quantizing once gives.
pub proof fn lemma_quantized_idempotent(value: u8)
    ensures
        quantized(quantized(value)) == quantized(value),
{
    lemma_quantized_binary(value);
    lemma_quantized_binary(quantized(value));
}

} // verus!
