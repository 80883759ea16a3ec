//! The shape of a pixel buffer.

use vstd::prelude::*;
use crate::error::ConversionError;

verus! {

/// Samples per pixel: red, green and blue, in that order.
pub const CHANNELS: usize = 3;

/// Number of samples in an image of the given size.
pub open spec fn sample_count(height: u32, width: u32) -> nat {
    (height * width * 3) as nat
}

/// Number of pixels in an image of the given size.
pub open spec fn pixel_count(height: u32, width: u32) -> nat {
    (height * width) as nat
}

/// Tests that a buffer of `len` samples is an image of the given size, and
/// returns its number of pixels.
///
/// A buffer of any other length is refused: it is never cut or padded.
pub fn check_shape(len: usize, height: u32, width: u32) -> (result: Result<usize, ConversionError>)
    ensures
        len == sample_count(height, width) ==> result == Ok::<usize, ConversionError>(
            pixel_count(height, width) as usize,
        ),
        len != sample_count(height, width) ==> result == Err::<usize, ConversionError>(
            ConversionError::ShapeError,
        ),
        result is Ok ==> pixel_count(height, width) <= usize::MAX,
{
    assert(height * width <= 0xffff_ffff * 0xffff_ffff) by (nonlinear_arith)
        requires
            height <= 0xffff_ffff,
            width <= 0xffff_ffff,
    ;
    let pixels: u64 = height as u64 * width as u64;
    let samples: u64 = len as u64;
    if samples % 3 == 0 && samples / 3 == pixels {
        Ok(len / 3)
    } else {
        Err(ConversionError::ShapeError)
    }
}

} // verus!
