use audio_fft_core::analyzer::SpectralAnalyzer;
use audio_fft_core::window::WindowFunction;
use num_complex::Complex32;

fn real_buffer(values: &[f32]) -> Vec<Complex32> {
    values.iter().map(|v| Complex32::new(*v, 0.0)).collect()
}

#[test]
fn apply_window_multiplies_element_wise() {
    let samples = real_buffer(&[2.0, -1.5, 0.25, 8.0]);
    let window = real_buffer(&[0.5, 0.5, 3.0, 0.0]);
    let windowed = SpectralAnalyzer::apply_window(&samples, &window);
    let expected = [2.0f32 * 0.5, -1.5f32 * 0.5, 0.25f32 * 3.0, 8.0f32 * 0.0];
    assert_eq!(windowed.len(), 4);
    for (got, want) in windowed.iter().zip(expected.iter()) {
        assert_eq!(got.re.to_bits(), want.to_bits());
        assert_eq!(got.im.to_bits(), 0.0f32.to_bits());
    }
}

#[test]
fn normalization_matches_documented_formula_exactly() {
    // One meaningful bin out of a transform of length two: with bin (3, 4),
    // the magnitude is sqrt(sqrt(3^2 + 4^2) * 4 / 2), computed in single
    // precision in that exact order.
    let bins = vec![Complex32::new(3.0, 4.0), Complex32::new(1.0, -1.0)];
    let magnitudes = SpectralAnalyzer::normalize_half_spectrum(&bins);
    assert_eq!(magnitudes.len(), 1);
    let norm = (3.0f32 * 3.0 + 4.0f32 * 4.0).sqrt();
    let expected = ((norm * 4.0) / 2.0).sqrt();
    assert_eq!(magnitudes[0].re.to_bits(), expected.to_bits());
}

#[test]
fn analyze_returns_half_as_many_bins_as_samples() {
    let samples = real_buffer(&vec![0.125; 64]);
    let window = WindowFunction::Hanning.generate_coefficients(64);
    let spectrum = SpectralAnalyzer::analyze(&samples, &window);
    assert_eq!(spectrum.len(), 32);
}

#[test]
fn analyze_of_empty_input_is_empty() {
    let samples: Vec<Complex32> = Vec::new();
    let window: Vec<Complex32> = Vec::new();
    let spectrum = SpectralAnalyzer::analyze(&samples, &window);
    assert!(spectrum.is_empty());
}

#[test]
fn sine_peak_lands_on_its_bin_with_unit_amplitude() {
    // A unit-amplitude sine at an exact bin of a Hanning-windowed transform:
    // the documented normalization sqrt(|X_k| * 4 / N) gives 1.0 at the peak
    // (|X_k| = N/4 under the Hanning window's coherent gain).
    let n = 512usize;
    let bin = 32usize;
    let amplitude = 1.0f64;
    let samples: Vec<Complex32> = (0..n)
        .map(|i| {
            let phase = 2.0 * std::f64::consts::PI * bin as f64 * i as f64 / n as f64;
            Complex32::new((amplitude * phase.sin()) as f32, 0.0)
        })
        .collect();
    let window = WindowFunction::Hanning.generate_coefficients(n);
    let spectrum = SpectralAnalyzer::analyze(&samples, &window);
    assert_eq!(spectrum.len(), n / 2);

    let mut peak_index = 0usize;
    let mut peak_value = f32::MIN;
    for (i, c) in spectrum.iter().enumerate() {
        if c.re > peak_value {
            peak_value = c.re;
            peak_index = i;
        }
    }
    assert_eq!(peak_index, bin);
    assert!((peak_value - 1.0).abs() < 1e-2);

    // Away from the peak and its immediate neighbors the spectrum is quiet.
    for (i, c) in spectrum.iter().enumerate() {
        if i + 2 < bin || i > bin + 2 {
            assert!(c.re < 0.1);
        }
    }
}
