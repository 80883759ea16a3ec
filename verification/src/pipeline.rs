//! The order of a conversion.
//!
//! A conversion goes through its stages in one order. Between two stages the
//! caller computes: it turns the samples into compressed luma, then the
//! pieces of the tone curve into red difference signals, then the peak into
//! scaled, re-encoded samples. Each stage is a type of its own, made only by
//! the stage before it, so no stage can be left out or taken twice; and each
//! stage refuses a plane that does not have the size of the image.

use vstd::prelude::*;
use crate::chroma::{chroma_peak, is_peak};
use crate::encode::{quantize_all, quantized_all};
use crate::error::ConversionError;
use crate::shape::{check_shape, pixel_count, sample_count};
use crate::tone::{is_segmentation, tone_segments, ToneSegment};

verus! {

/// A conversion whose buffer has the shape of an image. It waits for the
/// compressed luma of every pixel.
pub struct Shaped {
    pixels: usize,
}

/// A conversion whose luma lies in the domain of the tone curve. It waits
/// for the red difference signal of every pixel.
pub struct Segmented {
    segments: Vec<ToneSegment>,
}

/// A conversion whose chroma peak is known. It waits for the scaled samples
/// of every pixel, three to a pixel.
pub struct Peaked {
    pixels: usize,
    peak: u32,
}

impl Shaped {
    /// Number of pixels of the image.
    pub closed spec fn pixels(&self) -> nat {
        self.pixels as nat
    }

    /// Number of pixels of the image.
    pub fn pixel_count(&self) -> (count: usize)
        ensures
            count == self.pixels(),
    {
        self.pixels
    }

    /// Takes the compressed luma of every pixel, in row-major order, and
    /// decides the piece of the tone curve for each.
    ///
    /// A plane of another size than the image is a shape error; a value
    /// outside the domain of the curve is a domain error that names the
    /// first such pixel.
    pub fn segment(self, compressed: &Vec<u32>) -> (result: Result<Segmented, ConversionError>)
        ensures
            compressed.len() != self.pixels() ==> result == Err::<Segmented, ConversionError>(
                ConversionError::ShapeError,
            ),
            compressed.len() == self.pixels() ==> match result {
                Ok(next) => {
                    &&& next.pixels() == self.pixels()
                    &&& is_segmentation(compressed@, Ok(next.segments()))
                },
                Err(error) => is_segmentation(compressed@, Err(error)),
            },
    {
        if compressed.len() != self.pixels {
            return Err(ConversionError::ShapeError);
        }
        match tone_segments(compressed) {
            Ok(segments) => Ok(Segmented { segments }),
            Err(error) => Err(error),
        }
    }
}

impl Segmented {
    /// Number of pixels of the image.
    pub closed spec fn pixels(&self) -> nat {
        self.segments.len() as nat
    }

    /// The piece of the tone curve for each pixel, in row-major order.
    pub closed spec fn segments(&self) -> Seq<ToneSegment> {
        self.segments@
    }

    /// There is one piece for each pixel.
    pub proof fn lemma_one_segment_each(&self)
        ensures
            self.segments().len() == self.pixels(),
    {
    }

    /// The piece of the tone curve for each pixel, in row-major order.
    pub fn pieces(&self) -> (pieces: &Vec<ToneSegment>)
        ensures
            pieces@ == self.segments(),
    {
        &self.segments
    }

    /// Takes the red difference signal of every pixel and finds the peak of
    /// the image. A plane of another size than the image is a shape error.
    pub fn find_peak(self, red_difference: &Vec<u32>) -> (result: Result<Peaked, ConversionError>)
        ensures
            red_difference.len() != self.pixels() ==> result == Err::<Peaked, ConversionError>(
                ConversionError::ShapeError,
            ),
            red_difference.len() == self.pixels() ==> match result {
                Ok(next) => next.pixels() == self.pixels() && is_peak(red_difference@, next.peak()),
                Err(_) => false,
            },
    {
        if red_difference.len() != self.segments.len() {
            return Err(ConversionError::ShapeError);
        }
        Ok(Peaked { pixels: self.segments.len(), peak: chroma_peak(red_difference) })
    }
}

impl Peaked {
    /// Number of pixels of the image.
    pub closed spec fn pixels(&self) -> nat {
        self.pixels as nat
    }

    /// The chroma peak of the image.
    pub closed spec fn peak(&self) -> u32 {
        self.peak
    }

    /// The chroma peak of the image, to be added to every pixel's red.
    pub fn chroma_peak(&self) -> (peak: u32)
        ensures
            peak == self.peak(),
    {
        self.peak
    }

    /// Takes the re-encoded samples, scaled to the byte range, three to a
    /// pixel, and turns them into the bytes of the converted image. A buffer
    /// of another size than the image is a shape error.
    pub fn encode(self, scaled: &Vec<u32>) -> (result: Result<Vec<u8>, ConversionError>)
        ensures
            scaled.len() != 3 * self.pixels() ==> result == Err::<Vec<u8>, ConversionError>(
                ConversionError::ShapeError,
            ),
            scaled.len() == 3 * self.pixels() ==> match result {
                Ok(bytes) => bytes.len() == 3 * self.pixels() && bytes@ == quantized_all(scaled@),
                Err(_) => false,
            },
    {
        if scaled.len() % 3 != 0 || scaled.len() / 3 != self.pixels {
            return Err(ConversionError::ShapeError);
        }
        Ok(quantize_all(scaled))
    }
}

/// Begins the conversion of a buffer of `len` samples as an image of the
/// given size. A buffer of any other length than `height * width * 3` is a
/// shape error.
pub fn begin(len: usize, height: u32, width: u32) -> (result: Result<Shaped, ConversionError>)
    ensures
        len != sample_count(height, width) ==> result == Err::<Shaped, ConversionError>(
            ConversionError::ShapeError,
        ),
        len == sample_count(height, width) ==> match result {
            Ok(shaped) => shaped.pixels() == pixel_count(height, width),
            Err(_) => false,
        },
{
    match check_shape(len, height, width) {
        Ok(pixels) => Ok(Shaped { pixels }),
        Err(error) => Err(error),
    }
}

} // verus!
