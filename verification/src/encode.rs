//! The output encoder's last step: from a re-encoded sample, already scaled
//! to the byte range, to the byte itself.

use vstd::prelude::*;
use vstd::arithmetic::div_mod::*;
use vstd::arithmetic::power2::*;
use crate::binary32::{
    abs_bits, exponent_field, is_nan, is_negative, lemma_magnitude_increases,
    lemma_magnitude_order, lemma_one_is_unit, magnitude, significand, unit, value, HIDDEN_BIT,
    INFINITY, ONE, SIGN_BIT,
};

verus! {

/// Bit pattern of `256.0`, the first value above the byte range.
pub const BYTE_RANGE_END: u32 = 0x4380_0000;

/// The whole part of a pattern's absolute value.
pub open spec fn whole_part(bits: u32) -> nat {
    magnitude(bits) / unit()
}

/// The byte that a scaled sample becomes: its value truncated toward zero and
/// held to `0..=255`. Negative values and NaN become `0`, and everything from
/// `255.0` up, infinity included, becomes `255`.
pub open spec fn quantized(bits: u32) -> u8 {
    if is_nan(bits) || is_negative(bits) {
        0
    } else if whole_part(bits) >= 255 {
        255
    } else {
        whole_part(bits) as u8
    }
}

/// The bytes of a whole buffer of scaled samples, one for one.
pub open spec fn quantized_all(samples: Seq<u32>) -> Seq<u8> {
    Seq::new(samples.len(), |i: int| quantized(samples[i]))
}

/// Computes `2^exponent`.
fn power_of_two(exponent: u32) -> (power: u32)
    requires
        exponent < 32,
    ensures
        power == pow2(exponent as nat),
{
    let mut power: u32 = 1;
    let mut done: u32 = 0;
    proof {
        lemma2_to64();
    }
    while done < exponent
        invariant
            done <= exponent < 32,
            power == pow2(done as nat),
            pow2(31) == 0x8000_0000,
        decreases exponent - done,
    {
        proof {
            lemma_pow2_unfold((done + 1) as nat);
            if done + 1 < 31 {
                lemma_pow2_strictly_increases((done + 1) as nat, 31);
            }
        }
        power = power * 2;
        done = done + 1;
    }
    power
}

/// Below `1.0` the whole part is zero.
proof fn lemma_whole_part_below_one(bits: u32)
    requires
        abs_bits(bits) < ONE,
    ensures
        whole_part(bits) == 0,
{
    lemma_magnitude_increases(bits, ONE);
    lemma_one_is_unit();
    lemma_basic_div(magnitude(bits) as int, unit() as int);
}

/// From `256.0` up the whole part is at least 256.
proof fn lemma_whole_part_above_range(bits: u32)
    requires
        abs_bits(bits) >= BYTE_RANGE_END,
    ensures
        whole_part(bits) >= 256,
{
    lemma_magnitude_order(BYTE_RANGE_END, bits);
    lemma2_to64();
    assert(exponent_field(BYTE_RANGE_END) == 135);
    assert(significand(BYTE_RANGE_END) == pow2(23));
    lemma_pow2_adds(23, 134);
    lemma_pow2_adds(8, 149);
    lemma_pow2_pos(149);
    assert(magnitude(BYTE_RANGE_END) == 256 * unit());
    lemma_div_multiples_vanish(256, unit() as int);
    lemma_div_is_ordered(magnitude(BYTE_RANGE_END) as int, magnitude(bits) as int, unit() as int);
}

/// Between `1.0` and `256.0` the whole part is the significand without the
/// bits that stand behind the binary point.
proof fn lemma_whole_part_in_range(bits: u32)
    requires
        ONE <= abs_bits(bits) < BYTE_RANGE_END,
    ensures
        127 <= exponent_field(bits) <= 134,
        whole_part(bits) == significand(bits) / pow2((150 - exponent_field(bits)) as nat),
        whole_part(bits) < 256,
{
    let e = exponent_field(bits);
    let below = (e - 1) as nat;
    let behind = (150 - e) as nat;
    let s = significand(bits) as int;
    lemma2_to64();
    lemma_pow2_adds(below, behind);
    lemma_pow2_pos(below);
    lemma_pow2_pos(behind);
    assert(unit() == pow2(below) * pow2(behind));
    lemma_div_multiples_vanish_quotient(pow2(below) as int, s, pow2(behind) as int);
    assert(s * pow2(below) == pow2(below) * s) by (nonlinear_arith);
    assert(pow2(behind) >= 0x1_0000) by {
        if 16 < behind {
            lemma_pow2_strictly_increases(16, behind);
        }
    }
    assert(s / (pow2(behind) as int) < 256) by (nonlinear_arith)
        requires
            0 <= s < 0x100_0000,
            pow2(behind) >= 0x1_0000,
    ;
}

/// A sample of greater value never becomes a smaller byte.
pub proof fn lemma_quantized_is_monotonic(lower: u32, upper: u32)
    requires
        !is_nan(lower),
        !is_nan(upper),
        value(lower) <= value(upper),
    ensures
        quantized(lower) <= quantized(upper),
{
    lemma_pow2_pos(149);
    if !is_negative(lower) {
        if is_negative(upper) {
            assert(magnitude(lower) == 0);
            lemma_basic_div(0, unit() as int);
        } else {
            lemma_div_is_ordered(magnitude(lower) as int, magnitude(upper) as int, unit() as int);
        }
    }
}

/// Turns one scaled sample into its byte.
pub fn quantize(bits: u32) -> (byte: u8)
    ensures
        byte == quantized(bits),
{
    if bits >= SIGN_BIT || bits > INFINITY {
        0
    } else if bits >= BYTE_RANGE_END {
        proof {
            lemma_whole_part_above_range(bits);
        }
        255
    } else if bits < ONE {
        proof {
            lemma_whole_part_below_one(bits);
        }
        0
    } else {
        let exponent: u32 = bits / HIDDEN_BIT;
        let significand: u32 = HIDDEN_BIT + bits % HIDDEN_BIT;
        proof {
            lemma_whole_part_in_range(bits);
        }
        let divisor: u32 = power_of_two(150 - exponent);
        proof {
            lemma_pow2_pos((150 - exponent) as nat);
        }
        (significand / divisor) as u8
    }
}

/// Turns a buffer of scaled samples into bytes, one for one and in order.
pub fn quantize_all(samples: &Vec<u32>) -> (bytes: Vec<u8>)
    ensures
        bytes@ == quantized_all(samples@),
{
    let mut bytes: Vec<u8> = Vec::with_capacity(samples.len());
    let mut next: usize = 0;
    while next < samples.len()
        invariant
            next <= samples.len(),
            bytes.len() == next,
            forall|i: int| 0 <= i < next ==> bytes[i] == quantized(samples[i]),
        decreases samples.len() - next,
    {
        bytes.push(quantize(samples[next]));
        next = next + 1;
    }
    assert(bytes@ =~= quantized_all(samples@));
    bytes
}

} // verus!
