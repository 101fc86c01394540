use vstd::prelude::*;
use crate::fops::{
    c32_bits, c32_im_bits, mul32_bits, add32_bits, div32_bits, sqrt32_bits, f32_of_usize,
    F32_FOUR_BITS, c32_mul, c32_add, c32_div, c32_sqrt, c32_im_part, usize_to_c32,
};
use crate::fbits::{agrees32, f32_is_nan_bits};

verus! {

/// The element-wise product of samples and window coefficients, as the bit
/// patterns of the real parts.
pub open spec fn windowed_bits(samples: Seq<num_complex::Complex32>, window: Seq<num_complex::Complex32>) -> Seq<u32> {
    Seq::new(samples.len(), |i: int| mul32_bits(c32_bits(samples[i]), c32_bits(window[i])))
}

/// The published magnitude of one frequency bin: with `norm` the complex
/// magnitude `sqrt(re^2 + im^2)`, the result is `sqrt(norm * 4 / n)`, the
/// amplitude normalization of a windowed real-input transform of length `n`.
pub open spec fn bin_magnitude_bits(re: u32, im: u32, n: u32) -> u32 {
    let norm = sqrt32_bits(add32_bits(mul32_bits(re, re), mul32_bits(im, im)));
    sqrt32_bits(div32_bits(mul32_bits(norm, F32_FOUR_BITS), n))
}

/// Whether the magnitude formula stays clear of NaN at every intermediate
/// step, so that each step's bit pattern is fixed exactly.  (The final root
/// may still be a NaN; `agrees32` covers it.)
pub open spec fn bin_magnitude_defined(re: u32, im: u32, n: u32) -> bool {
    let re_sq = mul32_bits(re, re);
    let im_sq = mul32_bits(im, im);
    let sum_sq = add32_bits(re_sq, im_sq);
    let norm = sqrt32_bits(sum_sq);
    let scaled = mul32_bits(norm, F32_FOUR_BITS);
    let ratio = div32_bits(scaled, n);
    &&& !f32_is_nan_bits(re_sq)
    &&& !f32_is_nan_bits(im_sq)
    &&& !f32_is_nan_bits(sum_sq)
    &&& !f32_is_nan_bits(norm)
    &&& !f32_is_nan_bits(scaled)
    &&& !f32_is_nan_bits(ratio)
}

/// How a published bin relates to the formula: where every intermediate step
/// is NaN-free the bits agree with the named formula exactly; otherwise the
/// published bin is some NaN (NaN payload bits are not fixed by IEEE 754).
pub open spec fn bin_magnitude_post(actual: u32, re: u32, im: u32, n: u32) -> bool {
    if bin_magnitude_defined(re, im, n) {
        agrees32(actual, bin_magnitude_bits(re, im, n))
    } else {
        f32_is_nan_bits(actual)
    }
}

/// Windowed Fourier analysis of one frame of samples.
pub struct SpectralAnalyzer;

impl SpectralAnalyzer {
    /// Multiplies each sample by the matching window coefficient, yielding the
    /// complex input sequence of the transform (imaginary parts zero).
    pub fn apply_window(samples: &Vec<num_complex::Complex32>, window: &Vec<num_complex::Complex32>) -> (r: Vec<num_complex::Complex32>)
        requires
            samples@.len() == window@.len(),
        ensures
            r@.len() == samples@.len(),
            forall|i: int| 0 <= i < r@.len() ==> agrees32(
                c32_bits(#[trigger] r@[i]),
                windowed_bits(samples@, window@)[i],
            ),
            forall|i: int| 0 <= i < r@.len() ==> c32_im_bits(#[trigger] r@[i]) == 0,
    {
        let len = samples.len();
        let mut windowed: Vec<num_complex::Complex32> = Vec::new();
        let mut i: usize = 0;
        while i < len
            invariant
                i <= len,
                len == samples@.len(),
                samples@.len() == window@.len(),
                windowed@.len() == i,
                forall|j: int| 0 <= j < i ==> agrees32(
                    c32_bits(#[trigger] windowed@[j]),
                    windowed_bits(samples@, window@)[j],
                ),
                forall|j: int| 0 <= j < i ==> c32_im_bits(#[trigger] windowed@[j]) == 0,
            decreases len - i,
        {
            windowed.push(c32_mul(samples[i], window[i]));
            i = i + 1;
        }
        windowed
    }

    /// Normalizes the first half of a transform of length `bins.len()` into
    /// published magnitudes, bin by bin.
    pub fn normalize_half_spectrum(bins: &Vec<num_complex::Complex32>) -> (r: Vec<num_complex::Complex32>)
        ensures
            r@.len() == bins@.len() / 2,
            forall|i: int| 0 <= i < r@.len() ==> bin_magnitude_post(
                c32_bits(#[trigger] r@[i]),
                c32_bits(bins@[i]),
                c32_im_bits(bins@[i]),
                f32_of_usize(bins@.len() as usize),
            ),
    {
        let n = bins.len();
        let n_value = usize_to_c32(n);
        let four = usize_to_c32(4);
        let half = n / 2;
        let mut magnitudes: Vec<num_complex::Complex32> = Vec::new();
        let mut i: usize = 0;
        while i < half
            invariant
                i <= half,
                half == n / 2,
                n == bins@.len(),
                c32_bits(n_value) == f32_of_usize(n),
                c32_bits(four) == F32_FOUR_BITS,
                magnitudes@.len() == i,
                forall|j: int| 0 <= j < i ==> bin_magnitude_post(
                    c32_bits(#[trigger] magnitudes@[j]),
                    c32_bits(bins@[j]),
                    c32_im_bits(bins@[j]),
                    f32_of_usize(n),
                ),
            decreases half - i,
        {
            let bin = bins[i];
            let re = bin;
            let im = c32_im_part(bin);
            let norm = c32_sqrt(c32_add(c32_mul(re, re), c32_mul(im, im)));
            let magnitude = c32_sqrt(c32_div(c32_mul(norm, four), n_value));
            magnitudes.push(magnitude);
            i = i + 1;
        }
        magnitudes
    }

    /// Windowed Fourier analysis of one frame: window the samples, transform
    /// them, and normalize the first half of the bins (the meaningful half
    /// for a real input signal) into magnitudes.  The transform itself is the
    /// transform crate's; only the length of its output is known here, so the
    /// exact magnitude formula is stated on `normalize_half_spectrum`.
    pub fn analyze(samples: &Vec<num_complex::Complex32>, window: &Vec<num_complex::Complex32>) -> (r: Vec<num_complex::Complex32>)
        requires
            samples@.len() == window@.len(),
        ensures
            r@.len() == samples@.len() / 2,
    {
        if samples.len() == 0 {
            let empty: Vec<num_complex::Complex32> = Vec::new();
            return empty;
        }
        let mut buffer = Self::apply_window(samples, window);
        fft_forward(&mut buffer);
        Self::normalize_half_spectrum(&buffer)
    }
}

/// Relies on `rustfft::FftPlanner::plan_fft_forward` and `Fft::process`: a
/// forward discrete Fourier transform of the whole buffer, computed in place,
/// so the length is kept.  The buffer is exactly one transform long and not
/// empty, so `process` cannot panic.
#[verifier::external_body]
fn fft_forward(buffer: &mut Vec<num_complex::Complex32>)
    requires
        old(buffer)@.len() > 0,
    ensures
        final(buffer)@.len() == old(buffer)@.len(),
{
    let mut planner = rustfft::FftPlanner::new();
    let fft = planner.plan_fft_forward(buffer.len());
    fft.process(buffer.as_mut_slice());
}

} // verus!
