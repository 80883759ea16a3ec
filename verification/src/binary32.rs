//! An exact model of IEEE 754 binary32 bit patterns.
//!
//! A finite pattern denotes `significand * 2^(scale - 149)`. The model keeps
//! the integer `significand * 2^scale`, the magnitude in units of `2^-149`,
//! so that every finite value is an integer and comparisons are exact.

use vstd::prelude::*;
use vstd::arithmetic::power2::*;

verus! {

/// The sign bit.
pub const SIGN_BIT: u32 = 0x8000_0000;

/// The lowest exponent bit, which is also the implicit leading bit of a
/// normal significand.
pub const HIDDEN_BIT: u32 = 0x0080_0000;

/// Bit pattern of positive infinity; larger magnitudes are NaN.
pub const INFINITY: u32 = 0x7f80_0000;

/// Bit pattern of `1.0`.
pub const ONE: u32 = 0x3f80_0000;

/// Number of magnitude units in `1.0`: the magnitude is counted in units of
/// `2^-149`.
pub open spec fn unit() -> nat {
    pow2(149)
}

pub open spec fn is_negative(bits: u32) -> bool {
    bits >= SIGN_BIT
}

/// The pattern with its sign bit cleared.
pub open spec fn abs_bits(bits: u32) -> u32 {
    if bits >= SIGN_BIT {
        (bits - SIGN_BIT) as u32
    } else {
        bits
    }
}

pub open spec fn is_nan(bits: u32) -> bool {
    abs_bits(bits) > INFINITY
}

/// The biased exponent, `0..=255`.
pub open spec fn exponent_field(bits: u32) -> nat {
    (abs_bits(bits) / HIDDEN_BIT) as nat
}

/// The 23 stored significand bits.
pub open spec fn fraction_field(bits: u32) -> nat {
    (abs_bits(bits) % HIDDEN_BIT) as nat
}

/// The significand with its leading bit: subnormals have none.
pub open spec fn significand(bits: u32) -> nat {
    if exponent_field(bits) == 0 {
        fraction_field(bits)
    } else {
        HIDDEN_BIT as nat + fraction_field(bits)
    }
}

/// The power of two by which the significand is scaled, in units of `2^-149`.
pub open spec fn scale(bits: u32) -> nat {
    if exponent_field(bits) == 0 {
        0
    } else {
        (exponent_field(bits) - 1) as nat
    }
}

/// The absolute value that a pattern denotes, in units of `2^-149`.
///
/// Infinity is given the magnitude that the next exponent would have, so it
/// lies above every finite magnitude. NaN patterns denote no value and their
/// magnitude carries no meaning.
pub open spec fn magnitude(bits: u32) -> nat {
    significand(bits) * pow2(scale(bits))
}

/// The signed value that a pattern denotes, in units of `2^-149`. Both zeros
/// denote `0`.
pub open spec fn value(bits: u32) -> int {
    if is_negative(bits) {
        -(magnitude(bits) as int)
    } else {
        magnitude(bits) as int
    }
}

/// A normal pattern's magnitude lies between the powers of two that bracket
/// its exponent; a subnormal one lies below the smallest normal magnitude.
pub proof fn lemma_magnitude_bracket(bits: u32)
    ensures
        exponent_field(bits) == 0 ==> magnitude(bits) < HIDDEN_BIT,
        exponent_field(bits) >= 1 ==> HIDDEN_BIT * pow2(scale(bits)) <= magnitude(bits)
            < HIDDEN_BIT * pow2(scale(bits) + 1),
{
    let s = significand(bits) as int;
    let p = pow2(scale(bits)) as int;
    lemma_pow2_pos(scale(bits));
    lemma_pow2_unfold(scale(bits) + 1);
    if exponent_field(bits) == 0 {
        lemma2_to64();
    } else {
        assert(0x80_0000 * p <= s * p < 0x100_0000 * p) by (nonlinear_arith)
            requires
                0x80_0000 <= s < 0x100_0000,
                p > 0,
        ;
    }
}

/// Magnitudes are ordered as the patterns are, once the sign is set aside.
pub proof fn lemma_magnitude_increases(a: u32, b: u32)
    requires
        abs_bits(a) < abs_bits(b),
    ensures
        magnitude(a) < magnitude(b),
{
    let ea = exponent_field(a);
    let eb = exponent_field(b);
    lemma_magnitude_bracket(a);
    lemma_magnitude_bracket(b);
    lemma_pow2_pos(scale(a));
    lemma_pow2_pos(scale(b));
    if ea == eb {
        let sa = significand(a) as int;
        let sb = significand(b) as int;
        let p = pow2(scale(a)) as int;
        assert(sa * p < sb * p) by (nonlinear_arith)
            requires
                sa < sb,
                p > 0,
        ;
    } else {
        assert(ea < eb);
        // magnitude(a) < HIDDEN_BIT * 2^ea <= HIDDEN_BIT * 2^(eb - 1) <= magnitude(b)
        if ea == 0 {
            lemma2_to64();
        }
        if scale(a) + 1 < scale(b) {
            lemma_pow2_strictly_increases(scale(a) + 1, scale(b));
        }
    }
}

/// Two patterns compare by magnitude exactly as their sign-cleared patterns
/// compare as integers.
pub proof fn lemma_magnitude_order(a: u32, b: u32)
    ensures
        abs_bits(a) <= abs_bits(b) <==> magnitude(a) <= magnitude(b),
        abs_bits(a) == abs_bits(b) <==> magnitude(a) == magnitude(b),
{
    if abs_bits(a) < abs_bits(b) {
        lemma_magnitude_increases(a, b);
    } else if abs_bits(b) < abs_bits(a) {
        lemma_magnitude_increases(b, a);
    }
}

/// `1.0` denotes exactly one unit.
pub proof fn lemma_one_is_unit()
    ensures
        magnitude(ONE) == unit(),
{
    lemma2_to64();
    assert(exponent_field(ONE) == 127);
    assert(significand(ONE) == pow2(23));
    lemma_pow2_adds(23, 126);
}

/// Only the two zeros denote zero.
pub proof fn lemma_magnitude_zero(bits: u32)
    ensures
        magnitude(bits) == 0 <==> abs_bits(bits) == 0,
{
    lemma_magnitude_order(0, bits);
    assert(magnitude(0) == 0) by {
        assert(significand(0) == 0);
        assert(0 * pow2(scale(0)) == 0) by (nonlinear_arith);
    }
}

} // verus!
