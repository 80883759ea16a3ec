//! The middle stage of the tone curve: a remap in three pieces.
//!
//! The stage takes a luma value that the logarithmic compression before it
//! has brought into `[0, 1]`. This module decides which piece a value falls
//! on, and refuses a value outside the domain. The piece's polynomial is
//! given by decimal coefficients; evaluating it is left to the caller's
//! floating-point arithmetic.

use vstd::prelude::*;
use crate::binary32::{
    is_nan, lemma_magnitude_order, lemma_magnitude_zero, lemma_one_is_unit, magnitude, unit,
    value, ONE, SIGN_BIT,
};
use crate::decimal::{is_nearest, lemma_nearest_among_neighbours, SCALE};
use crate::error::ConversionError;
use vstd::arithmetic::power2::*;

verus! {

/// The lower breakpoint, `0.7399`, in ten-thousandths.
pub const LOW_BREAK: i32 = 7_399;

/// The upper breakpoint, `0.9909`, in ten-thousandths.
pub const HIGH_BREAK: i32 = 9_909;

/// Bit pattern of the binary32 value nearest to `0.7399`.
pub const LOW_BREAK_BITS: u32 = 0x3f3d_6a16;

/// Bit pattern of the binary32 value nearest to `0.9909`.
pub const HIGH_BREAK_BITS: u32 = 0x3f7d_ab9f;

/// Slope of the low piece, `1.0770`.
pub const LOW_LINEAR: i32 = 10_770;

/// Coefficients of the middle piece: `-1.1510`, `2.7811` and `-0.6302`.
pub const MIDDLE_SQUARE: i32 = -11_510;

pub const MIDDLE_LINEAR: i32 = 27_811;

pub const MIDDLE_CONSTANT: i32 = -6_302;

/// Slope and offset of the high piece, both `0.5`.
pub const HIGH_LINEAR: i32 = 5_000;

pub const HIGH_CONSTANT: i32 = 5_000;

/// One of the three pieces of the remap.
#[derive(Clone, Copy, Debug, PartialEq, Eq, Structural)]
pub enum ToneSegment {
    /// From `0` up to the lower breakpoint: a line through the origin.
    Low,
    /// Above the lower breakpoint, up to the upper one: a parabola.
    Middle,
    /// Above the upper breakpoint, up to `1`: a line that ends in `(1, 1)`.
    High,
}

/// A polynomial `square * x^2 + linear * x + constant`, its coefficients in
/// ten-thousandths.
#[derive(Clone, Copy, Debug, PartialEq, Eq, Structural)]
pub struct Quadratic {
    pub square: i32,
    pub linear: i32,
    pub constant: i32,
}

/// The polynomial of each piece.
pub open spec fn coefficients_of(segment: ToneSegment) -> Quadratic {
    match segment {
        ToneSegment::Low => (Quadratic { square: 0, linear: LOW_LINEAR, constant: 0 }),
        ToneSegment::Middle => (Quadratic {
            square: MIDDLE_SQUARE,
            linear: MIDDLE_LINEAR,
            constant: MIDDLE_CONSTANT,
        }),
        ToneSegment::High => (Quadratic { square: 0, linear: HIGH_LINEAR, constant: HIGH_CONSTANT }),
    }
}

/// The exact value of a piece's polynomial at `x / SCALE`, in units of
/// `1 / SCALE^3`.
pub open spec fn curve_at(segment: ToneSegment, x: int) -> int {
    let c = coefficients_of(segment);
    c.square * x * x + c.linear * x * SCALE + c.constant * SCALE * SCALE
}

/// The piece on which a luma value falls, or `None` outside the domain.
///
/// The comparisons are those of binary32: negative zero counts as zero and
/// falls on the low piece, NaN falls nowhere, and the breakpoints are the
/// binary32 values nearest to their decimals.
#[verifier::opaque]
pub open spec fn segment_of(bits: u32) -> Option<ToneSegment> {
    if is_nan(bits) || value(bits) < 0 || value(bits) > unit() {
        None
    } else if value(bits) <= value(LOW_BREAK_BITS) {
        Some(ToneSegment::Low)
    } else if value(bits) <= value(HIGH_BREAK_BITS) {
        Some(ToneSegment::Middle)
    } else {
        Some(ToneSegment::High)
    }
}

/// The lower breakpoint is tested against the binary32 value nearest to
/// `0.7399`.
pub proof fn lemma_low_break_is_nearest()
    ensures
        is_nearest(LOW_BREAK_BITS, LOW_BREAK as int),
{
    let p = pow2(125);
    lemma2_to64();
    lemma_pow2_adds(24, 125);
    lemma_pow2_pos(125);
    assert(magnitude(0x3f3d_6a15) == 12_413_461 * p);
    assert(magnitude(0x3f3d_6a16) == 12_413_462 * p);
    assert(magnitude(0x3f3d_6a17) == 12_413_463 * p);
    assert(unit() == 16_777_216 * p);
    lemma_nearest_among_neighbours(LOW_BREAK_BITS, LOW_BREAK as int);
}

/// The upper breakpoint is tested against the binary32 value nearest to
/// `0.9909`.
pub proof fn lemma_high_break_is_nearest()
    ensures
        is_nearest(HIGH_BREAK_BITS, HIGH_BREAK as int),
{
    let p = pow2(125);
    lemma2_to64();
    lemma_pow2_adds(24, 125);
    lemma_pow2_pos(125);
    assert(magnitude(0x3f7d_ab9e) == 16_624_542 * p);
    assert(magnitude(0x3f7d_ab9f) == 16_624_543 * p);
    assert(magnitude(0x3f7d_aba0) == 16_624_544 * p);
    assert(unit() == 16_777_216 * p);
    lemma_nearest_among_neighbours(HIGH_BREAK_BITS, HIGH_BREAK as int);
}

/// The curve takes a value exactly when it is a number from `0` to `1`,
/// both ends included.
pub proof fn lemma_domain(bits: u32)
    ensures
        segment_of(bits) is Some <==> !is_nan(bits) && 0 <= value(bits) <= unit(),
{
    reveal(segment_of);
}

/// At each breakpoint the two pieces that meet there differ by less than a
/// thousandth.
pub proof fn lemma_continuous_at_breaks()
    ensures
        -1_000_000_000 < curve_at(ToneSegment::Low, LOW_BREAK as int) - curve_at(
            ToneSegment::Middle,
            LOW_BREAK as int,
        ) < 1_000_000_000,
        -1_000_000_000 < curve_at(ToneSegment::Middle, HIGH_BREAK as int) - curve_at(
            ToneSegment::High,
            HIGH_BREAK as int,
        ) < 1_000_000_000,
{
}

/// The curve ends where it should: the low piece starts in `(0, 0)` and the
/// high piece ends in `(1, 1)`.
pub proof fn lemma_curve_ends()
    ensures
        curve_at(ToneSegment::Low, 0) == 0,
        curve_at(ToneSegment::High, SCALE as int) == SCALE * SCALE * SCALE,
{
}

impl ToneSegment {
    /// The coefficients of this piece's polynomial.
    pub fn coefficients(self) -> (c: Quadratic)
        ensures
            c == coefficients_of(self),
    {
        match self {
            ToneSegment::Low => Quadratic { square: 0, linear: LOW_LINEAR, constant: 0 },
            ToneSegment::Middle => Quadratic {
                square: MIDDLE_SQUARE,
                linear: MIDDLE_LINEAR,
                constant: MIDDLE_CONSTANT,
            },
            ToneSegment::High => Quadratic { square: 0, linear: HIGH_LINEAR, constant: HIGH_CONSTANT },
        }
    }
}

/// Decides the piece for one luma value, given as its bit pattern.
pub fn tone_segment(bits: u32) -> (segment: Option<ToneSegment>)
    ensures
        segment == segment_of(bits),
{
    proof {
        reveal(segment_of);
        lemma_magnitude_order(bits, LOW_BREAK_BITS);
        lemma_magnitude_order(bits, HIGH_BREAK_BITS);
        lemma_magnitude_order(bits, ONE);
        lemma_magnitude_order(LOW_BREAK_BITS, HIGH_BREAK_BITS);
        lemma_magnitude_order(HIGH_BREAK_BITS, ONE);
        lemma_magnitude_zero(bits);
        lemma_one_is_unit();
    }
    if bits == SIGN_BIT {
        Some(ToneSegment::Low)
    } else if bits >= SIGN_BIT {
        None
    } else if bits <= LOW_BREAK_BITS {
        Some(ToneSegment::Low)
    } else if bits <= HIGH_BREAK_BITS {
        Some(ToneSegment::Middle)
    } else if bits <= ONE {
        Some(ToneSegment::High)
    } else {
        None
    }
}

/// What deciding the pieces of a whole plane comes to: the piece of every
/// value, in order, where every value lies in the domain; otherwise the
/// first pixel whose value does not.
pub open spec fn is_segmentation(
    plane: Seq<u32>,
    result: Result<Seq<ToneSegment>, ConversionError>,
) -> bool {
    match result {
        Ok(segments) => {
            &&& segments.len() == plane.len()
            &&& forall|i: int|
                0 <= i < plane.len() ==> segment_of(plane[i]) == Some(#[trigger] segments[i])
        },
        Err(ConversionError::ToneMappingDomainError { pixel }) => {
            &&& pixel < plane.len()
            &&& segment_of(plane[pixel as int]) is None
            &&& forall|i: int| 0 <= i < pixel ==> (#[trigger] segment_of(plane[i])) is Some
        },
        Err(ConversionError::ShapeError) => false,
    }
}

/// A plane has one segmentation only.
pub proof fn lemma_segmentation_is_unique(
    plane: Seq<u32>,
    first: Result<Seq<ToneSegment>, ConversionError>,
    second: Result<Seq<ToneSegment>, ConversionError>,
)
    requires
        is_segmentation(plane, first),
        is_segmentation(plane, second),
    ensures
        first == second,
{
    match (first, second) {
        (Ok(a), Ok(b)) => {
            assert forall|i: int| 0 <= i < a.len() implies a[i] == b[i] by {
                assert(segment_of(plane[i]) == Some(a[i]));
                assert(segment_of(plane[i]) == Some(b[i]));
            }
            assert(a =~= b);
        },
        (Ok(a), Err(ConversionError::ToneMappingDomainError { pixel })) => {
            assert(segment_of(plane[pixel as int]) == Some(a[pixel as int]));
        },
        (Err(ConversionError::ToneMappingDomainError { pixel }), Ok(b)) => {
            assert(segment_of(plane[pixel as int]) == Some(b[pixel as int]));
        },
        (
            Err(ConversionError::ToneMappingDomainError { pixel: p }),
            Err(ConversionError::ToneMappingDomainError { pixel: q }),
        ) => {
            if p < q {
                assert(segment_of(plane[p as int]) is Some);
            } else if q < p {
                assert(segment_of(plane[q as int]) is Some);
            }
        },
        _ => {},
    }
}

/// Maps a result over a vector to the same result over its view.
pub open spec fn viewed(result: Result<Vec<ToneSegment>, ConversionError>) -> Result<
    Seq<ToneSegment>,
    ConversionError,
> {
    match result {
        Ok(segments) => Ok(segments@),
        Err(error) => Err(error),
    }
}

/// Decides the piece for every value of a luma plane.
///
/// Succeeds exactly when every value lies in the domain. Otherwise the error
/// names the first pixel whose value does not.
pub fn tone_segments(plane: &Vec<u32>) -> (result: Result<Vec<ToneSegment>, ConversionError>)
    ensures
        is_segmentation(plane@, viewed(result)),
{
    let mut segments: Vec<ToneSegment> = Vec::with_capacity(plane.len());
    let mut pixel: usize = 0;
    while pixel < plane.len()
        invariant
            pixel <= plane.len(),
            segments.len() == pixel,
            forall|i: int| 0 <= i < pixel ==> segment_of(plane[i]) == Some(#[trigger] segments[i]),
            forall|i: int| 0 <= i < pixel ==> (#[trigger] segment_of(plane[i])) is Some,
        decreases plane.len() - pixel,
    {
        match tone_segment(plane[pixel]) {
            Some(segment) => {
                segments.push(segment);
            },
            None => {
                return Err(ConversionError::ToneMappingDomainError { pixel });
            },
        }
        pixel = pixel + 1;
    }
    Ok(segments)
}

} // verus!
