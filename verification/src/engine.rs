//! Spectral transform stage: turns each fixed-size window of samples into a
//! complex spectrum of `size/2 + 1` bins and the quantized magnitude row the
//! display consumes.
//!
//! The transform itself and the two single-precision helpers it needs are
//! outside calls; everything from their results to the finished row is
//! verified, so the row is pinned, bin by bin, to the spectrum returned.

use crate::quantize::{f32_is_nan, quantized_mag, scale_byte};
use vstd::prelude::*;

verus! {

/// What `Complex32::norm_sqr` returns on two bit patterns; where the
/// result is a NaN, a representative of it (the call only promises to
/// agree on NaN-ness there, since NaN payload bits are not determined).
pub uninterp spec fn norm_sqr_of(re: u32, im: u32) -> u32;

/// What the single-precision `sqrt` returns on a bit pattern; where the
/// result is a NaN, a representative of it, as for `norm_sqr_of`.
pub uninterp spec fn sqrt_of(bits: u32) -> u32;

/// Relies on num-complex's `Complex32::norm_sqr` (realfft re-exports the
/// crate): `re * re + im * im` evaluated in IEEE single precision.
/// Correctly rounded multiply and add make the result a function of the
/// two bit patterns — except that when the result is a NaN, only its
/// NaN-ness is determined, not its payload bits, so the exact bits are
/// promised only for non-NaN results.
#[verifier::external_body]
fn norm_sqr_bits(re: u32, im: u32) -> (r: u32)
    ensures
        f32_is_nan(r) <==> f32_is_nan(norm_sqr_of(re, im)),
        !f32_is_nan(norm_sqr_of(re, im)) ==> r == norm_sqr_of(re, im),
{
    let c = realfft::num_complex::Complex32::new(bytemuck::cast(re), bytemuck::cast(im));
    c.norm_sqr().to_bits()
}

/// Relies on the standard library's single-precision `sqrt`: the IEEE
/// square root, correctly rounded, so the result is a function of the bit
/// pattern — except that a NaN result's payload bits are not determined,
/// so the exact bits are promised only for non-NaN results. A NaN input
/// yields a NaN (so does a negative one, though nothing here relies on
/// that). The complex carrier pins the scalar type of the bit pattern.
#[verifier::external_body]
fn sqrt_single_bits(bits: u32) -> (r: u32)
    ensures
        f32_is_nan(r) <==> f32_is_nan(sqrt_of(bits)),
        !f32_is_nan(sqrt_of(bits)) ==> r == sqrt_of(bits),
        f32_is_nan(bits) ==> f32_is_nan(r),
{
    let c = realfft::num_complex::Complex32::new(bytemuck::cast(bits), bytemuck::cast(0u32));
    c.re.sqrt().to_bits()
}

/// Relies on realfft's `RealFftPlanner::plan_fft_forward` and
/// `RealToComplex::process`: the forward transform of a real signal of
/// length `n` fills exactly `n/2 + 1` complex bins (`make_output_vec`
/// allocates that many), and `process` accepts slices of exactly those
/// lengths. Nothing is assumed about the bin values.
#[verifier::external_body]
fn fft_forward_bits(window: &Vec<u32>) -> (bins: Vec<(u32, u32)>)
    requires
        window@.len() >= 1,
    ensures
        bins@.len() == window@.len() / 2 + 1,
{
    let mut planner = realfft::RealFftPlanner::new();
    let fft = planner.plan_fft_forward(window.len());
    let mut output: Vec<realfft::num_complex::Complex32> = fft.make_output_vec();
    let mut input = fft.make_input_vec();
    for (slot, b) in input.iter_mut().zip(window.iter()) {
        *slot = bytemuck::cast(*b);
    }
    let _ = fft.process(&mut input, &mut output);
    output.iter().map(|c| (c.re.to_bits(), c.im.to_bits())).collect()
}

/// The display byte for one spectrum bin in a row of width `k`:
/// `min(255, floor(255 * sqrt(re^2 + im^2) / k))`, with the square and the
/// root taken in single precision. A NaN square (a NaN or infinite bin
/// component) quantizes to 0, like every NaN magnitude.
pub open spec fn bin_byte(bin: (u32, u32), k: nat) -> nat {
    let m = norm_sqr_of(bin.0, bin.1);
    if f32_is_nan(m) {
        0
    } else {
        quantized_mag(sqrt_of(m), k)
    }
}

/// Quantize one spectrum bin for a row of width `k`.
pub fn quantize_bin(re: u32, im: u32, k: usize) -> (r: u8)
    requires
        k >= 1,
    ensures
        r as nat == bin_byte((re, im), k as nat),
{
    let m = norm_sqr_bits(re, im);
    let s = sqrt_single_bits(m);
    let b = scale_byte(s, k);
    proof {
        let mv = norm_sqr_of(re, im);
        if f32_is_nan(mv) {
            // The square is NaN: so is its root, and a NaN quantizes to 0.
            assert(f32_is_nan(s));
            assert(quantized_mag(s, k as nat) == 0);
        } else {
            assert(m == mv);
            if f32_is_nan(sqrt_of(mv)) {
                assert(f32_is_nan(s));
                assert(quantized_mag(s, k as nat) == 0);
                assert(quantized_mag(sqrt_of(mv), k as nat) == 0);
            } else {
                assert(s == sqrt_of(mv));
            }
        }
    }
    b
}

/// Quantize a whole spectrum into a display row of the same width.
pub fn quantize_row(bins: &Vec<(u32, u32)>, k: usize) -> (row: Vec<u8>)
    requires
        k >= 1,
    ensures
        row@.len() == bins@.len(),
        forall|i: int| 0 <= i < bins@.len() ==> row@[i] as nat == bin_byte(bins@[i], k as nat),
{
    let mut row: Vec<u8> = Vec::new();
    let mut i: usize = 0;
    while i < bins.len()
        invariant
            i <= bins@.len(),
            row@.len() == i,
            k >= 1,
            forall|j: int| 0 <= j < i ==> row@[j] as nat == bin_byte(bins@[j], k as nat),
        decreases bins@.len() - i,
    {
        let (re, im) = bins[i];
        let b = quantize_bin(re, im, k);
        row.push(b);
        i += 1;
    }
    row
}

/// The transform stage. It is built for one window size and derives rows of
/// width `size/2 + 1` for the lifetime of the pipeline.
pub struct SpectralEngine {
    size: usize,
}

impl SpectralEngine {
    pub closed spec fn spec_size(&self) -> nat {
        self.size as nat
    }

    /// Row and spectrum width: one bin per frequency from zero to Nyquist.
    pub open spec fn spec_width(&self) -> nat {
        self.spec_size() / 2 + 1
    }

    pub closed spec fn wf(&self) -> bool {
        self.size >= 1
    }

    pub fn new(size: usize) -> (r: SpectralEngine)
        requires
            size >= 1,
        ensures
            r.wf(),
            r.spec_size() == size,
    {
        SpectralEngine { size }
    }

    /// The configured window size.
    pub fn size(&self) -> (n: usize)
        ensures
            n == self.spec_size(),
    {
        self.size
    }

    /// The width of the rows this engine emits.
    pub fn width(&self) -> (w: usize)
        requires
            self.wf(),
        ensures
            w == self.spec_width(),
    {
        self.size / 2 + 1
    }

    /// Transform one complete window: the complex spectrum of the window
    /// and its quantized magnitude row, in that order. Feeding a window of
    /// the wrong length is a contract violation, which the framer rules
    /// out.
    pub fn process_window(&self, window: &Vec<u32>) -> (out: (Vec<(u32, u32)>, Vec<u8>))
        requires
            self.wf(),
            window@.len() == self.spec_size(),
        ensures
            out.0@.len() == self.spec_width(),
            out.1@.len() == self.spec_width(),
            forall|i: int|
                0 <= i < out.0@.len() ==> out.1@[i] as nat == bin_byte(
                    out.0@[i],
                    self.spec_width(),
                ),
    {
        let bins = fft_forward_bits(window);
        let width = self.size / 2 + 1;
        let row = quantize_row(&bins, width);
        (bins, row)
    }
}

} // verus!
