use spectro::engine::{quantize_bin, quantize_row, SpectralEngine};

fn bits(v: f32) -> u32 {
    v.to_bits()
}

/// The reference the engine implements: single-precision square and root,
/// then the exact `min(255, floor(255 * m / k))`.
fn reference_bin(re: f32, im: f32, k: usize) -> u8 {
    let m = (re * re + im * im).sqrt();
    if m.is_nan() {
        return 0;
    }
    let scaled = 255.0f64 * m as f64 / k as f64;
    if scaled >= 255.0 { 255 } else { scaled.floor() as u8 }
}

#[test]
fn bin_quantization_matches_reference() {
    let cases = [
        (1.0f32, 0.0f32, 1usize),
        (3.0, 4.0, 5),
        (0.0, 0.0, 7),
        (-3.0, 4.0, 2),
        (10.0, -10.0, 33),
        (1.0e-3, 2.0e-3, 5),
        (1.0e20, 0.0, 513),
    ];
    for (re, im, k) in cases {
        assert_eq!(quantize_bin(bits(re), bits(im), k), reference_bin(re, im, k), "re={re} im={im} k={k}");
    }
}

#[test]
fn row_quantization_applies_per_bin() {
    let bins = vec![
        (bits(1.0), bits(0.0)),
        (bits(0.0), bits(2.0)),
        (bits(3.0), bits(4.0)),
    ];
    let row = quantize_row(&bins, 5);
    assert_eq!(
        row,
        vec![reference_bin(1.0, 0.0, 5), reference_bin(0.0, 2.0, 5), reference_bin(3.0, 4.0, 5)]
    );
}

#[test]
fn spectrum_has_one_bin_per_frequency() {
    let engine = SpectralEngine::new(8);
    assert_eq!(engine.width(), 5);
    let window: Vec<u32> = vec![bits(0.5); 8];
    let (spectrum, row) = engine.process_window(&window);
    assert_eq!(spectrum.len(), 5);
    assert_eq!(row.len(), 5);
}

#[test]
fn pure_sine_concentrates_energy_in_its_bin() {
    // 8 cycles in 64 samples at rate 64: the energy belongs in bin 8.
    let n = 64usize;
    let f = 8.0f32;
    let window: Vec<u32> = (0..n)
        .map(|i| (core::f32::consts::TAU * f * i as f32 / n as f32).sin().to_bits())
        .collect();
    let engine = SpectralEngine::new(n);
    let (spectrum, _row) = engine.process_window(&window);
    assert_eq!(spectrum.len(), n / 2 + 1);
    let mags: Vec<f32> = spectrum
        .iter()
        .map(|&(re, im)| {
            let re = f32::from_bits(re);
            let im = f32::from_bits(im);
            (re * re + im * im).sqrt()
        })
        .collect();
    let peak = n as f32 / 2.0;
    assert!((mags[8] - peak).abs() < 1.0e-2 * peak, "bin 8 holds {}", mags[8]);
    for (i, &m) in mags.iter().enumerate() {
        if i != 8 {
            assert!(m < 1.0e-3 * peak, "bin {i} leaked {m}");
        }
    }
}

#[test]
fn dc_window_concentrates_energy_in_bin_zero() {
    let n = 16usize;
    let window: Vec<u32> = vec![bits(1.0); n];
    let engine = SpectralEngine::new(n);
    let (spectrum, row) = engine.process_window(&window);
    let dc = {
        let (re, im) = spectrum[0];
        (f32::from_bits(re).powi(2) + f32::from_bits(im).powi(2)).sqrt()
    };
    assert!((dc - n as f32).abs() < 1.0e-3);
    // The quantized DC bin saturates: 255 * 16 / 9 > 255.
    assert_eq!(row[0], 255);
}

#[test]
fn odd_transform_lengths_are_supported() {
    let engine = SpectralEngine::new(9);
    assert_eq!(engine.width(), 5);
    let window: Vec<u32> = (0..9).map(|i| bits(i as f32)).collect();
    let (spectrum, row) = engine.process_window(&window);
    assert_eq!(spectrum.len(), 5);
    assert_eq!(row.len(), 5);
    // DC bin: the plain sum 0 + 1 + ... + 8 = 36.
    let (re, im) = spectrum[0];
    let dc = (f32::from_bits(re).powi(2) + f32::from_bits(im).powi(2)).sqrt();
    assert!((dc - 36.0).abs() < 1.0e-3);
}
