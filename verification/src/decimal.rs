//! Decimal constants and the binary32 values that stand for them.
//!
//! The constants of the conversion are published with four decimal places.
//! This crate keeps each as an integer count of ten-thousandths, so that what
//! is claimed of them is claimed in exact arithmetic. A caller gets the
//! binary32 constant by dividing the count by [`SCALE`] in binary32, which
//! rounds correctly.

use vstd::prelude::*;
use crate::binary32::{
    is_nan, is_negative, lemma_magnitude_order, magnitude, unit, value, INFINITY,
};

verus! {

/// Denominator of every decimal constant.
pub const SCALE: i32 = 10_000;

/// How far a pattern's value lies from the decimal `numerator / SCALE`, in
/// units of `2^-149 / SCALE`.
pub open spec fn distance(bits: u32, numerator: int) -> int {
    let gap = SCALE * value(bits) - numerator * unit();
    if gap < 0 {
        -gap
    } else {
        gap
    }
}

/// No binary32 value lies nearer to `numerator / SCALE` than this one.
pub open spec fn is_nearest(bits: u32, numerator: int) -> bool {
    !is_nan(bits) && forall|other: u32| !is_nan(other) ==> distance(bits, numerator) <= distance(
        other,
        numerator,
    )
}

/// A positive finite pattern whose two neighbours lie on either side of the
/// decimal, and no nearer to it, is the nearest of all.
pub proof fn lemma_nearest_among_neighbours(bits: u32, numerator: int)
    requires
        0 < bits < INFINITY,
        SCALE * magnitude((bits - 1) as u32) <= numerator * unit(),
        numerator * unit() <= SCALE * magnitude((bits + 1) as u32),
        distance(bits, numerator) <= distance((bits - 1) as u32, numerator),
        distance(bits, numerator) <= distance((bits + 1) as u32, numerator),
    ensures
        is_nearest(bits, numerator),
{
    let before = (bits - 1) as u32;
    let after = (bits + 1) as u32;
    assert forall|other: u32| !is_nan(other) implies distance(bits, numerator) <= distance(
        other,
        numerator,
    ) by {
        if is_negative(other) || other <= before {
            lemma_magnitude_order(other, before);
            assert(value(other) <= value(before));
        } else if other >= after {
            lemma_magnitude_order(after, other);
            assert(value(after) <= value(other));
        }
    }
}

} // verus!
