use hdr_sdr::decimal::SCALE;
use hdr_sdr::error::ConversionError;
use hdr_sdr::tone::{
    tone_segment, tone_segments, Quadratic, ToneSegment, HIGH_BREAK, HIGH_BREAK_BITS, LOW_BREAK,
    LOW_BREAK_BITS,
};

fn expected_segment(yp: f32) -> Option<ToneSegment> {
    if 0.0 <= yp && yp <= 0.7399 {
        Some(ToneSegment::Low)
    } else if 0.7399 < yp && yp <= 0.9909 {
        Some(ToneSegment::Middle)
    } else if 0.9909 < yp && yp <= 1.0 {
        Some(ToneSegment::High)
    } else {
        None
    }
}

fn evaluate(segment: ToneSegment, yp: f32) -> f32 {
    let c = segment.coefficients();
    let scale = SCALE as f32;
    let square = c.square as f32 / scale;
    let linear = c.linear as f32 / scale;
    let constant = c.constant as f32 / scale;
    square * yp * yp + linear * yp + constant
}

#[test]
fn break_patterns_are_the_decimal_literals() {
    assert_eq!(LOW_BREAK_BITS, 0.7399f32.to_bits());
    assert_eq!(HIGH_BREAK_BITS, 0.9909f32.to_bits());
    assert_eq!(LOW_BREAK as f32 / SCALE as f32, 0.7399f32);
    assert_eq!(HIGH_BREAK as f32 / SCALE as f32, 0.9909f32);
}

#[test]
fn segment_of_values_inside_each_piece() {
    assert_eq!(tone_segment(0.0f32.to_bits()), Some(ToneSegment::Low));
    assert_eq!(tone_segment(0.5f32.to_bits()), Some(ToneSegment::Low));
    assert_eq!(tone_segment(0.8f32.to_bits()), Some(ToneSegment::Middle));
    assert_eq!(tone_segment(0.995f32.to_bits()), Some(ToneSegment::High));
    assert_eq!(tone_segment(1.0f32.to_bits()), Some(ToneSegment::High));
}

#[test]
fn segment_at_the_breakpoints_belongs_to_the_lower_piece() {
    assert_eq!(tone_segment(LOW_BREAK_BITS), Some(ToneSegment::Low));
    assert_eq!(tone_segment(LOW_BREAK_BITS + 1), Some(ToneSegment::Middle));
    assert_eq!(tone_segment(HIGH_BREAK_BITS), Some(ToneSegment::Middle));
    assert_eq!(tone_segment(HIGH_BREAK_BITS + 1), Some(ToneSegment::High));
}

#[test]
fn segment_refuses_values_below_zero() {
    assert_eq!(tone_segment((-0.1f32).to_bits()), None);
    assert_eq!(tone_segment((-1.0e-30f32).to_bits()), None);
    assert_eq!(tone_segment(0x8000_0001), None);
    assert_eq!(tone_segment(f32::NEG_INFINITY.to_bits()), None);
}

#[test]
fn segment_refuses_values_above_one() {
    assert_eq!(tone_segment(1.0f32.to_bits() + 1), None);
    assert_eq!(tone_segment(1.5f32.to_bits()), None);
    assert_eq!(tone_segment(f32::INFINITY.to_bits()), None);
}

#[test]
fn segment_refuses_nan() {
    assert_eq!(tone_segment(f32::NAN.to_bits()), None);
    assert_eq!(tone_segment(0xffc0_0000), None);
    assert_eq!(tone_segment(0x7f80_0001), None);
}

#[test]
fn segment_takes_negative_zero_as_zero() {
    assert_eq!(tone_segment((-0.0f32).to_bits()), Some(ToneSegment::Low));
}

#[test]
fn segment_agrees_with_float_comparisons_across_all_patterns() {
    let mut bits: u32 = 0;
    loop {
        assert_eq!(
            tone_segment(bits),
            expected_segment(f32::from_bits(bits)),
            "at {:#010x}",
            bits
        );
        match bits.checked_add(6421) {
            Some(next) => bits = next,
            None => break,
        }
    }
}

#[test]
fn segment_agrees_with_float_comparisons_around_the_breaks() {
    for centre in [0u32, 0x8000_0000, LOW_BREAK_BITS, HIGH_BREAK_BITS, 1.0f32.to_bits()] {
        let mut bits = centre.saturating_sub(500);
        while bits < centre + 500 {
            assert_eq!(
                tone_segment(bits),
                expected_segment(f32::from_bits(bits)),
                "at {:#010x}",
                bits
            );
            bits += 1;
        }
    }
}

#[test]
fn coefficients_of_each_piece() {
    assert_eq!(
        ToneSegment::Low.coefficients(),
        Quadratic { square: 0, linear: 10_770, constant: 0 }
    );
    assert_eq!(
        ToneSegment::Middle.coefficients(),
        Quadratic { square: -11_510, linear: 27_811, constant: -6_302 }
    );
    assert_eq!(
        ToneSegment::High.coefficients(),
        Quadratic { square: 0, linear: 5_000, constant: 5_000 }
    );
}

#[test]
fn coefficients_divide_to_the_decimal_literals() {
    let scale = SCALE as f32;
    let low = ToneSegment::Low.coefficients();
    let middle = ToneSegment::Middle.coefficients();
    let high = ToneSegment::High.coefficients();
    assert_eq!(low.linear as f32 / scale, 1.0770f32);
    assert_eq!(middle.square as f32 / scale, -1.1510f32);
    assert_eq!(middle.linear as f32 / scale, 2.7811f32);
    assert_eq!(middle.constant as f32 / scale, -0.6302f32);
    assert_eq!(high.linear as f32 / scale, 0.5f32);
    assert_eq!(high.constant as f32 / scale, 0.5f32);
}

#[test]
fn pieces_evaluate_to_the_written_formulas() {
    for yp in [0.0f32, 0.1, 0.5, 0.7399] {
        assert_eq!(evaluate(ToneSegment::Low, yp), 1.0770 * yp);
    }
    for yp in [0.74f32, 0.8, 0.8984802, 0.9909] {
        assert_eq!(
            evaluate(ToneSegment::Middle, yp),
            -1.1510 * yp * yp + 2.7811 * yp - 0.6302
        );
    }
    for yp in [0.991f32, 0.999, 1.0] {
        assert_eq!(evaluate(ToneSegment::High, yp), 0.5 * yp + 0.5);
    }
}

#[test]
fn curve_is_continuous_at_the_breaks() {
    let low = f32::from_bits(LOW_BREAK_BITS);
    let high = f32::from_bits(HIGH_BREAK_BITS);
    assert!((evaluate(ToneSegment::Low, low) - evaluate(ToneSegment::Middle, low)).abs() < 1e-3);
    assert!((evaluate(ToneSegment::Middle, high) - evaluate(ToneSegment::High, high)).abs() < 1e-3);
}

#[test]
fn curve_maps_one_to_one_and_zero_to_zero() {
    assert_eq!(evaluate(ToneSegment::Low, 0.0), 0.0);
    assert_eq!(evaluate(ToneSegment::High, 1.0), 1.0);
}

#[test]
fn segments_of_a_plane_in_order() {
    let plane: Vec<u32> = [0.0f32, 0.9, 1.0, 0.3, 0.7399, 0.9909]
        .iter()
        .map(|x| x.to_bits())
        .collect();
    assert_eq!(
        tone_segments(&plane),
        Ok(vec![
            ToneSegment::Low,
            ToneSegment::Middle,
            ToneSegment::High,
            ToneSegment::Low,
            ToneSegment::Low,
            ToneSegment::Middle,
        ])
    );
}

#[test]
fn segments_of_an_empty_plane() {
    assert_eq!(tone_segments(&Vec::new()), Ok(Vec::new()));
}

#[test]
fn segments_name_the_first_pixel_outside_the_domain() {
    let plane: Vec<u32> = [0.2f32, 0.4, 1.25, 0.5, -3.0].iter().map(|x| x.to_bits()).collect();
    assert_eq!(
        tone_segments(&plane),
        Err(ConversionError::ToneMappingDomainError { pixel: 2 })
    );
    let plane: Vec<u32> = [-0.01f32, 0.4].iter().map(|x| x.to_bits()).collect();
    assert_eq!(
        tone_segments(&plane),
        Err(ConversionError::ToneMappingDomainError { pixel: 0 })
    );
    let plane: Vec<u32> = [0.5f32, f32::NAN].iter().map(|x| x.to_bits()).collect();
    assert_eq!(
        tone_segments(&plane),
        Err(ConversionError::ToneMappingDomainError { pixel: 1 })
    );
}
