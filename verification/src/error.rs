//! The ways in which a conversion is refused.

use vstd::prelude::*;

verus! {

/// Why one image could not be converted. Either failure concerns that image
/// alone and leaves nothing half done.
#[derive(Clone, Copy, Debug, PartialEq, Eq, Structural)]
pub enum ConversionError {
    /// The buffer does not hold `height * width * 3` samples, or a plane
    /// handed to a later stage does not have the size of the image.
    ShapeError,
    /// The compressed luma of a pixel lies outside `[0, 1]`, or is NaN.
    /// `pixel` counts pixels in row-major order and names the first such one.
    ToneMappingDomainError { pixel: usize },
}

} // verus!
