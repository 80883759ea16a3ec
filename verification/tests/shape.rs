use hdr_sdr::error::ConversionError;
use hdr_sdr::shape::{check_shape, CHANNELS};

#[test]
fn shape_accepts_exact_length() {
    assert_eq!(check_shape(12, 2, 2), Ok(4));
    assert_eq!(check_shape(27, 3, 3), Ok(9));
    assert_eq!(check_shape(3, 1, 1), Ok(1));
}

#[test]
fn shape_refuses_short_buffer() {
    assert_eq!(check_shape(11, 2, 2), Err(ConversionError::ShapeError));
}

#[test]
fn shape_refuses_long_buffer() {
    assert_eq!(check_shape(13, 2, 2), Err(ConversionError::ShapeError));
    assert_eq!(check_shape(15, 2, 2), Err(ConversionError::ShapeError));
}

#[test]
fn shape_of_empty_image() {
    assert_eq!(check_shape(0, 0, 0), Ok(0));
    assert_eq!(check_shape(0, 0, 640), Ok(0));
    assert_eq!(check_shape(0, 480, 0), Ok(0));
    assert_eq!(check_shape(3, 0, 1), Err(ConversionError::ShapeError));
}

#[test]
fn shape_refuses_length_of_one_plane() {
    // The number of pixels is not the number of samples.
    assert_eq!(check_shape(4, 2, 2), Err(ConversionError::ShapeError));
}

#[test]
fn shape_of_largest_dimensions_does_not_wrap() {
    // 4294967295 * 4294967295 * 3 wraps to 3 in 64 bits.
    assert_eq!(check_shape(3, u32::MAX, u32::MAX), Err(ConversionError::ShapeError));
    assert_eq!(check_shape(0, u32::MAX, u32::MAX), Err(ConversionError::ShapeError));
    assert_eq!(check_shape(usize::MAX, u32::MAX, u32::MAX), Err(ConversionError::ShapeError));
}

#[test]
fn shape_counts_three_channels() {
    assert_eq!(CHANNELS, 3);
    assert_eq!(check_shape(640 * 480 * CHANNELS, 480, 640), Ok(640 * 480));
}
