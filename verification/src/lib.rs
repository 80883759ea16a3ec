//! Decision logic of an HDR to SDR still-image converter.
//!
//! The conversion is a chain of floating-point stages. This crate holds the
//! parts of the chain that decide something: whether a buffer has the shape
//! of an image, which piece of the tone curve a luma value falls on, which
//! chroma value is the peak of the image, and which byte a re-encoded sample
//! becomes. Floating-point values cross the boundary as IEEE 754 binary32 bit
//! patterns, and every contract is stated over the exact value that a
//! pattern denotes.
//!
//! Two inputs have no defined colour and are still converted. A pixel of zero
//! luma makes the caller's colour scaling NaN: the chroma peak passes over
//! NaN and the encoder turns it into `0`, so a black pixel stays black. A
//! reconstructed sample outside `[0, 1]` is held to the nearest end of the
//! byte range, never wrapped.

pub mod binary32;
pub mod chroma;
pub mod decimal;
pub mod encode;
pub mod error;
pub mod naming;
pub mod pipeline;
pub mod shape;
pub mod tone;
