//! Luma weights, chroma divisors, and the image-wide chroma peak.

use vstd::prelude::*;
use crate::binary32::{is_nan, is_negative, lemma_magnitude_order, value, INFINITY, SIGN_BIT};
use crate::decimal::SCALE;

verus! {

/// Weight of red in luma, `0.2627`, in ten-thousandths.
pub const LUMA_RED: i32 = 2_627;

/// Weight of green in luma, `0.6780`.
pub const LUMA_GREEN: i32 = 6_780;

/// Weight of blue in luma, `0.0593`.
pub const LUMA_BLUE: i32 = 593;

/// Divisor of the blue difference signal, `1.8814`.
pub const CB_DIVISOR: i32 = 18_814;

/// Divisor of the red difference signal, `1.4746`.
pub const CR_DIVISOR: i32 = 14_746;

/// Factor on the uncompressed luma in the colour scaling, `1.1`.
pub const LUMA_HEADROOM: i32 = 11_000;

/// The three luma weights add up to exactly one.
pub proof fn lemma_luma_weights_sum_to_one()
    ensures
        LUMA_RED + LUMA_GREEN + LUMA_BLUE == SCALE,
{
}

/// Each chroma divisor is twice what is left of one after the weight of its
/// own channel, so that a difference signal spans `-0.5..=0.5`.
pub proof fn lemma_chroma_divisors()
    ensures
        CB_DIVISOR == 2 * (SCALE - LUMA_BLUE),
        CR_DIVISOR == 2 * (SCALE - LUMA_RED),
{
}

/// `peak` is the chroma peak of `plane`: the pattern of the greatest value
/// in the plane, or of `0.0` where no value is greater than that. NaN values
/// take no part.
pub open spec fn is_peak(plane: Seq<u32>, peak: u32) -> bool {
    &&& !is_negative(peak)
    &&& !is_nan(peak)
    &&& peak == 0 || plane.contains(peak)
    &&& forall|i: int|
        0 <= i < plane.len() && !is_nan(#[trigger] plane[i]) ==> value(plane[i]) <= value(peak)
}

/// A plane has one peak only.
pub proof fn lemma_peak_is_unique(plane: Seq<u32>, first: u32, second: u32)
    requires
        is_peak(plane, first),
        is_peak(plane, second),
    ensures
        first == second,
{
    lemma_magnitude_order(first, second);
    lemma_magnitude_order(0, first);
    lemma_magnitude_order(0, second);
    if first != 0 {
        let i = choose|i: int| 0 <= i < plane.len() && plane[i] == first;
        assert(value(plane[i]) <= value(second));
    }
    if second != 0 {
        let j = choose|j: int| 0 <= j < plane.len() && plane[j] == second;
        assert(value(plane[j]) <= value(first));
    }
}

/// Finds the chroma peak of a plane of red difference signals.
///
/// This is the one step of the conversion that needs the whole image: the
/// peak is added to every pixel's red channel afterwards.
pub fn chroma_peak(plane: &Vec<u32>) -> (peak: u32)
    ensures
        is_peak(plane@, peak),
{
    let mut peak: u32 = 0;
    let mut next: usize = 0;
    while next < plane.len()
        invariant
            next <= plane.len(),
            is_peak(plane@.take(next as int), peak),
        decreases plane.len() - next,
    {
        let candidate: u32 = plane[next];
        let ghost seen = plane@.take(next as int);
        let ghost grown = plane@.take(next + 1);
        let ghost old_peak = peak;
        if candidate < SIGN_BIT && candidate <= INFINITY && candidate > peak {
            peak = candidate;
        }
        proof {
            assert(grown[next as int] == candidate);
            assert(forall|i: int| 0 <= i < next ==> grown[i] == seen[i]);
            lemma_magnitude_order(candidate, old_peak);
            lemma_magnitude_order(old_peak, candidate);
            if peak != 0 {
                if peak == candidate {
                    assert(grown.contains(peak));
                } else {
                    let i = choose|i: int| 0 <= i < seen.len() && seen[i] == peak;
                    assert(grown[i] == peak);
                }
            }
            assert forall|i: int| 0 <= i < grown.len() && !is_nan(
                #[trigger] grown[i],
            ) implies value(grown[i]) <= value(peak) by {
                if i < next {
                    assert(seen[i] == grown[i]);
                    assert(value(seen[i]) <= value(old_peak));
                }
            }
        }
        next = next + 1;
    }
    assert(plane@.take(plane.len() as int) =~= plane@);
    peak
}

} // verus!
