use audio_fft_core::window::WindowFunction;
use audio_fft_core::fops::Scalar64;
use num_complex::{Complex32, Complex64};

fn coefficient_values(kind: &WindowFunction, len: usize) -> Vec<f32> {
    kind.generate_coefficients(len).iter().map(|c| c.re).collect()
}

#[test]
fn rectangular_window_is_all_ones() {
    let coefficients = coefficient_values(&WindowFunction::Rectangular, 17);
    assert_eq!(coefficients.len(), 17);
    for value in coefficients {
        assert_eq!(value.to_bits(), 1.0f32.to_bits());
    }
}

#[test]
fn rectangular_window_length_zero_is_empty() {
    let coefficients = coefficient_values(&WindowFunction::Rectangular, 0);
    assert!(coefficients.is_empty());
}

#[test]
fn every_kind_returns_exactly_n_coefficients() {
    let kinds = [
        WindowFunction::Rectangular,
        WindowFunction::Blackman,
        WindowFunction::Hamming,
        WindowFunction::Hanning,
        WindowFunction::Nuttall,
        WindowFunction::Triangular,
    ];
    for kind in kinds.iter() {
        for len in [2usize, 3, 16, 257] {
            assert_eq!(coefficient_values(kind, len).len(), len);
        }
    }
}

#[test]
fn standard_windows_stay_within_unit_range() {
    // The closed-form coefficients lie in [0, 1]; the computed ones may fall
    // below zero by rounding where edge terms cancel (the Nuttall window's
    // endpoints), so a rounding margin is allowed there.
    let kinds = [
        WindowFunction::Blackman,
        WindowFunction::Hamming,
        WindowFunction::Hanning,
        WindowFunction::Nuttall,
        WindowFunction::Triangular,
    ];
    for kind in kinds.iter() {
        for value in coefficient_values(kind, 64) {
            assert!(value >= -1e-6 && value <= 1.0 + 1e-6);
        }
    }
}

#[test]
fn hanning_window_matches_closed_form() {
    let coefficients = coefficient_values(&WindowFunction::Hanning, 7);
    let expected = [0.0, 0.25, 0.75, 1.0, 0.75, 0.25, 0.0];
    assert_eq!(coefficients.len(), expected.len());
    for (got, want) in coefficients.iter().zip(expected.iter()) {
        assert!((got - want).abs() < 1e-6);
    }
}

#[test]
fn hanning_follows_cosine_formula() {
    // Hanning: 0.5 - 0.5 * cos(2 pi n / (N - 1))
    let n = 33usize;
    let coefficients = coefficient_values(&WindowFunction::Hanning, n);
    for (i, got) in coefficients.iter().enumerate() {
        let x = 2.0 * std::f64::consts::PI * i as f64 / (n - 1) as f64;
        let want = (0.5 - 0.5 * x.cos()) as f32;
        assert!((got - want).abs() < 1e-6);
    }
}

#[test]
fn generalized_cosine_window_matches_hanning() {
    let cosine = WindowFunction::Cosine {
        a: Scalar64::new(Complex64::new(0.5, 0.0)),
        b: Scalar64::new(Complex64::new(0.5, 0.0)),
        c: Scalar64::new(Complex64::new(0.0, 0.0)),
        d: Scalar64::new(Complex64::new(0.0, 0.0)),
    };
    let got = coefficient_values(&cosine, 19);
    let want = coefficient_values(&WindowFunction::Hanning, 19);
    assert_eq!(got.len(), want.len());
    for (g, w) in got.iter().zip(want.iter()) {
        assert_eq!(g.to_bits(), w.to_bits());
    }
}

#[test]
fn triangular_window_of_one_point() {
    let coefficients = coefficient_values(&WindowFunction::Triangular, 1);
    assert_eq!(coefficients.len(), 1);
    assert!(coefficients[0] >= 0.0 && coefficients[0] <= 1.0);
}

#[test]
fn window_kinds_compare_by_coefficient_bits() {
    let half = WindowFunction::Cosine {
        a: Scalar64::new(Complex64::new(0.5, 0.0)),
        b: Scalar64::new(Complex64::new(0.5, 0.0)),
        c: Scalar64::new(Complex64::new(0.0, 0.0)),
        d: Scalar64::new(Complex64::new(0.0, 0.0)),
    };
    let same = WindowFunction::Cosine {
        a: Scalar64::new(Complex64::new(0.5, 0.0)),
        b: Scalar64::new(Complex64::new(0.5, 0.0)),
        c: Scalar64::new(Complex64::new(0.0, 0.0)),
        d: Scalar64::new(Complex64::new(0.0, 0.0)),
    };
    let other = WindowFunction::Cosine {
        a: Scalar64::new(Complex64::new(0.5000000000000001, 0.0)),
        b: Scalar64::new(Complex64::new(0.5, 0.0)),
        c: Scalar64::new(Complex64::new(0.0, 0.0)),
        d: Scalar64::new(Complex64::new(0.0, 0.0)),
    };
    assert!(half.same_kind(&same));
    assert!(!half.same_kind(&other));
    assert!(!half.same_kind(&WindowFunction::Hanning));
    assert!(WindowFunction::Hanning.same_kind(&WindowFunction::Hanning));
}

#[test]
fn frame_size_fitness_per_kind() {
    assert!(WindowFunction::Rectangular.fits_length(0));
    assert!(WindowFunction::Triangular.fits_length(1));
    assert!(!WindowFunction::Triangular.fits_length(0));
    assert!(!WindowFunction::Hanning.fits_length(1));
    assert!(WindowFunction::Hanning.fits_length(2));
    assert!(!WindowFunction::Blackman.fits_length(1));
}

#[test]
fn window_coefficients_are_carried_with_zero_imaginary_part() {
    let coefficients: Vec<Complex32> = WindowFunction::Hanning.generate_coefficients(9);
    for c in coefficients {
        assert_eq!(c.im, 0.0);
    }
}
