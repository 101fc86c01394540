use audio_fft_core::damping::DampingFilter;
use audio_fft_core::fops::Scalar64;
use num_complex::{Complex32, Complex64};

fn real_buffer(values: &[f32]) -> Vec<Complex32> {
    values.iter().map(|v| Complex32::new(*v, 0.0)).collect()
}

fn bits(buffer: &[Complex32]) -> Vec<u32> {
    buffer.iter().map(|c| c.re.to_bits()).collect()
}

#[test]
fn zero_factors_pass_raw_spectrum_through() {
    let filter = DampingFilter::new(Complex64::new(0.0, 0.0), Complex64::new(0.0, 0.0));
    let raw = real_buffer(&[0.5, 0.25, 0.75]);
    let raw_bits = bits(&raw);
    let previous = real_buffer(&[0.9, 0.9, 0.9]);
    let out = filter.apply(raw, Some(&previous), Complex64::new(1.0, 0.0));
    assert_eq!(bits(&out), raw_bits);
}

#[test]
fn zero_factors_pass_through_without_previous_too() {
    let filter = DampingFilter::new(Complex64::new(0.0, 0.0), Complex64::new(0.0, 0.0));
    let raw = real_buffer(&[0.5, 0.25, 0.75]);
    let raw_bits = bits(&raw);
    let out = filter.apply(raw, None, Complex64::new(3.0, 0.0));
    assert_eq!(bits(&out), raw_bits);
}

#[test]
fn missing_previous_passes_raw_spectrum_through() {
    let filter = DampingFilter::new(Complex64::new(0.7, 0.0), Complex64::new(0.3, 0.0));
    let raw = real_buffer(&[0.5, 0.25, 0.75]);
    let raw_bits = bits(&raw);
    let out = filter.apply(raw, None, Complex64::new(1.0, 0.0));
    assert_eq!(bits(&out), raw_bits);
}

#[test]
fn unit_factors_fully_retain_previous_spectrum() {
    let filter = DampingFilter::new(Complex64::new(1.0, 0.0), Complex64::new(1.0, 0.0));
    let raw = real_buffer(&[0.5, 0.25, 0.75, 0.0]);
    let previous = real_buffer(&[0.9, 0.1, 0.75, 0.3]);
    let previous_bits = bits(&previous);
    let out = filter.apply(raw, Some(&previous), Complex64::new(2.5, 0.0));
    assert_eq!(bits(&out), previous_bits);
}

#[test]
fn attack_and_release_blend_per_bin() {
    // attack 0.25, release 0.5, one frame elapsed: rising bins blend with
    // 0.25, falling bins with 0.5, each as
    // mult * previous + (1 - mult) * raw in single precision.
    let filter = DampingFilter::new(Complex64::new(0.25, 0.0), Complex64::new(0.5, 0.0));
    let raw = real_buffer(&[0.8, 0.2]);
    let previous = real_buffer(&[0.4, 0.6]);
    let out = filter.apply(raw, Some(&previous), Complex64::new(1.0, 0.0));

    let attack_mult = (0.25f64.powf(1.0).clamp(0.0, 1.0)) as f32;
    let release_mult = (0.5f64.powf(1.0).clamp(0.0, 1.0)) as f32;
    let rising = attack_mult * 0.4f32 + (1.0f32 - attack_mult) * 0.8f32;
    let falling = release_mult * 0.6f32 + (1.0f32 - release_mult) * 0.2f32;
    assert_eq!(out[0].re.to_bits(), rising.to_bits());
    assert_eq!(out[1].re.to_bits(), falling.to_bits());
}

#[test]
fn elapsed_time_raises_the_factor() {
    // Two frames elapsed: the multiplier is factor^2.
    let filter = DampingFilter::new(Complex64::new(0.25, 0.0), Complex64::new(0.25, 0.0));
    let raw = real_buffer(&[0.0]);
    let previous = real_buffer(&[1.0]);
    let out = filter.apply(raw, Some(&previous), Complex64::new(2.0, 0.0));
    let mult = (0.25f64.powf(2.0).clamp(0.0, 1.0)) as f32;
    let expected = mult * 1.0f32 + (1.0f32 - mult) * 0.0f32;
    assert_eq!(out[0].re.to_bits(), expected.to_bits());
}

#[test]
fn bins_beyond_previous_length_stay_raw() {
    let filter = DampingFilter::new(Complex64::new(0.5, 0.0), Complex64::new(0.5, 0.0));
    let raw = real_buffer(&[0.8, 0.2, 0.6]);
    let previous = real_buffer(&[0.4]);
    let out = filter.apply(raw, Some(&previous), Complex64::new(1.0, 0.0));
    assert_eq!(out.len(), 3);
    assert_eq!(out[1].re.to_bits(), 0.2f32.to_bits());
    assert_eq!(out[2].re.to_bits(), 0.6f32.to_bits());
}

#[test]
fn damping_multiplier_of_unit_factor_is_one() {
    let factor = Scalar64::new(Complex64::new(1.0, 0.0));
    let mult = DampingFilter::damping_multiplier(&factor, Complex64::new(7.25, 0.0));
    assert_eq!(mult.bits, 1.0f32.to_bits());
}

#[test]
fn damping_multiplier_exponentiates_and_clamps() {
    let factor = Scalar64::new(Complex64::new(0.25, 0.0));
    let mult = DampingFilter::damping_multiplier(&factor, Complex64::new(2.0, 0.0));
    assert_eq!(mult.bits, 0.0625f32.to_bits());
}
