use spectro::quantize::scale_byte;

#[test]
fn unit_magnitude_saturates_at_width_one() {
    assert_eq!(scale_byte(1.0f32.to_bits(), 1), 255);
}

#[test]
fn half_magnitude_truncates() {
    // 255 * 0.5 = 127.5, truncated to 127.
    assert_eq!(scale_byte(0.5f32.to_bits(), 1), 127);
}

#[test]
fn division_by_width_before_scaling() {
    // 255 * 2 / 5 = 102 exactly.
    assert_eq!(scale_byte(2.0f32.to_bits(), 5), 102);
    // 255 * 1 / 4 = 63.75, truncated to 63.
    assert_eq!(scale_byte(1.0f32.to_bits(), 4), 63);
}

#[test]
fn zero_and_negative_zero_quantize_to_zero() {
    assert_eq!(scale_byte(0.0f32.to_bits(), 9), 0);
    assert_eq!(scale_byte((-0.0f32).to_bits(), 9), 0);
}

#[test]
fn out_of_range_values_clamp_like_a_cast() {
    assert_eq!(scale_byte(f32::NAN.to_bits(), 3), 0);
    assert_eq!(scale_byte(f32::INFINITY.to_bits(), 3), 255);
    assert_eq!(scale_byte(f32::NEG_INFINITY.to_bits(), 3), 0);
    assert_eq!(scale_byte((-1.5f32).to_bits(), 3), 0);
}

#[test]
fn large_magnitude_saturates() {
    assert_eq!(scale_byte(1.0e20f32.to_bits(), 513), 255);
}

#[test]
fn tiny_magnitude_vanishes() {
    assert_eq!(scale_byte(f32::MIN_POSITIVE.to_bits(), 1), 0);
    assert_eq!(scale_byte(1.0e-40f32.to_bits(), 1), 0); // subnormal
}

#[test]
fn agrees_with_float_reference_on_simple_values() {
    for k in [1usize, 2, 5, 33, 513] {
        for v in [0.0f32, 0.25, 1.0, 3.0, 100.0, 1000.5] {
            let expected = ((255.0f64 * v as f64) / k as f64).floor().min(255.0) as u8;
            assert_eq!(scale_byte(v.to_bits(), k), expected, "v={v} k={k}");
        }
    }
}

#[test]
fn saturation_boundary_is_exact() {
    // 255 * 5 / 5 = 255 exactly: right at the top of the byte range.
    assert_eq!(scale_byte(5.0f32.to_bits(), 5), 255);
    // Just below the boundary.
    assert_eq!(scale_byte(4.99f32.to_bits(), 5), 254);
}

#[test]
fn extreme_exponents_saturate_or_vanish() {
    assert_eq!(scale_byte(f32::MAX.to_bits(), 513), 255);
    assert_eq!(scale_byte(2.0f32.powi(-20).to_bits(), 1), 0);
    assert_eq!(scale_byte(2.0f32.powi(-9).to_bits(), 1), 0);
    // 2^-7 = 0.0078125: 255 * 2^-7 = 1.9921875, truncated to 1.
    assert_eq!(scale_byte(2.0f32.powi(-7).to_bits(), 1), 1);
}

#[test]
fn structured_bit_patterns_match_the_float_reference() {
    for e in (0u32..=255).step_by(7).chain([1, 127, 128, 254, 255]) {
        for f in [0u32, 1, 0x40_0000, 0x7f_ffff] {
            for sign in [0u32, 1] {
                let bits = (sign << 31) | (e << 23) | f;
                let v = f32::from_bits(bits);
                for k in [1usize, 5, 513] {
                    let expected: u8 = if v.is_nan() || v <= 0.0 {
                        0
                    } else {
                        let scaled = 255.0f64 * v as f64 / k as f64;
                        if scaled >= 255.0 { 255 } else { scaled.floor() as u8 }
                    };
                    assert_eq!(scale_byte(bits, k), expected, "bits={bits:#010x} k={k}");
                }
            }
        }
    }
}
