use audio_fft_core::fbits::{f32_gt, f64_positive};
use audio_fft_core::fops::{c32_to_bits, c32_mul, usize_to_c32, Scalar32, Scalar64};
use audio_fft_core::indexed::Indexed;
use audio_fft_core::preprocessor::PreprocessResult;
use num_complex::{Complex32, Complex64};

#[test]
fn bit_level_greater_than_matches_float_comparison() {
    let values: [f32; 12] = [
        1.0,
        0.5,
        0.0,
        -0.0,
        -1.0,
        -2.0,
        f32::NAN,
        f32::INFINITY,
        f32::NEG_INFINITY,
        3.4e38,
        1.2e-40,
        -1.2e-40,
    ];
    for a in values.iter() {
        for b in values.iter() {
            assert_eq!(f32_gt(a.to_bits(), b.to_bits()), a > b);
        }
    }
}

#[test]
fn bit_level_positivity_matches_float_comparison() {
    let values: [f64; 9] = [
        1.0,
        0.25,
        0.0,
        -0.0,
        -1.0,
        f64::NAN,
        f64::INFINITY,
        f64::NEG_INFINITY,
        5e-324,
    ];
    for v in values.iter() {
        assert_eq!(f64_positive(v.to_bits()), *v > 0.0);
    }
}

#[test]
fn carrier_bits_round_trip() {
    let carrier = Complex32::new(0.7155418, 0.0);
    assert_eq!(c32_to_bits(carrier), 0.7155418f32.to_bits());
}

#[test]
fn carrier_multiplication_is_single_precision() {
    let a = Complex32::new(0.3, 0.0);
    let b = Complex32::new(-2.5, 0.0);
    let product = c32_mul(a, b);
    assert_eq!(product.re.to_bits(), (0.3f32 * -2.5f32).to_bits());
    assert_eq!(product.im.to_bits(), 0.0f32.to_bits());
}

#[test]
fn integer_conversions_are_exact_for_small_values() {
    assert_eq!(usize_to_c32(0).re.to_bits(), 0.0f32.to_bits());
    assert_eq!(usize_to_c32(1).re.to_bits(), 1.0f32.to_bits());
    assert_eq!(usize_to_c32(4).re.to_bits(), 4.0f32.to_bits());
    assert_eq!(usize_to_c32(1024).re.to_bits(), 1024.0f32.to_bits());
}

#[test]
fn scalars_pair_values_with_their_bits() {
    let wide = Scalar64::new(Complex64::new(0.125, 0.0));
    assert_eq!(wide.bits, 0.125f64.to_bits());
    let narrow = Scalar32::new(Complex32::new(0.125, 0.0));
    assert_eq!(narrow.bits, 0.125f32.to_bits());
    assert_eq!(Scalar32::one().bits, 1.0f32.to_bits());
}

#[test]
fn indexed_keeps_the_position() {
    let indexed = Indexed { index: 3, inner: 40usize };
    let mapped = indexed.map(|v| v + 2);
    assert_eq!(mapped.index, 3);
    assert_eq!(mapped.inner, 42);
    let (index, inner) = mapped.into_tuple();
    assert_eq!(index, 3);
    assert_eq!(inner, 42);
    let solo = Indexed { index: 9, inner: 7i32 };
    assert_eq!(solo.into_inner(), 7);
}

#[test]
fn indexed_transpose_carries_payloads() {
    let some = Indexed { index: 1, inner: Some(10u8) };
    let transposed = some.transpose().unwrap();
    assert_eq!(transposed.index, 1);
    assert_eq!(transposed.inner, 10);
    let none = Indexed { index: 1, inner: Option::<u8>::None };
    assert!(none.transpose().is_none());

    let ok = Indexed { index: 2, inner: Result::<u8, i8>::Ok(5) };
    let ok_t = ok.transpose().unwrap();
    assert_eq!(ok_t.index, 2);
    assert_eq!(ok_t.inner, 5);
    let err = Indexed { index: 2, inner: Result::<u8, i8>::Err(-3) };
    match err.transpose() {
        Ok(_) => panic!("expected the error to pass through"),
        Err(e) => assert_eq!(e, -3),
    }
}

#[test]
fn indexed_equality_is_by_position() {
    let a = Indexed { index: 5, inner: 1u8 };
    let b = Indexed { index: 5, inner: 200u8 };
    let c = Indexed { index: 6, inner: 1u8 };
    assert!(a == b);
    assert!(a != c);
}

#[test]
fn preprocess_result_stores_and_parses_values() {
    let mut result = PreprocessResult::new();
    assert!(result.parse("mix").is_none());
    result.insert(String::from("mix"), String::from("2"));
    result.insert(String::from("channel"), String::from("1"));
    assert_eq!(result.parse("mix").unwrap(), "2");
    assert_eq!(result.parse("channel").unwrap(), "1");
    assert!(result.parse("window").is_none());
}

#[test]
fn newest_definition_of_a_name_wins() {
    let mut result = PreprocessResult::new();
    result.insert(String::from("mix"), String::from("2"));
    result.insert(String::from("mix"), String::from("5"));
    assert_eq!(result.parse("mix").unwrap(), "5");
}

#[test]
fn preprocess_collects_directives_and_strips_their_lines() {
    let source = "uniform float x;\n\
                  #pragma shaderfilter set mix 2\n\
                  uniform float y;\n\
                  #pragma shaderfilter set channel 1\n";
    let (result, stripped) = audio_fft_core::preprocessor::preprocess(source);
    assert_eq!(result.parse("mix").unwrap(), "2");
    assert_eq!(result.parse("channel").unwrap(), "1");
    assert!(result.parse("window").is_none());
    assert_eq!(stripped, "uniform float x;\n\nuniform float y;\n\n");
}

#[test]
fn preprocess_keeps_the_last_definition_of_a_name() {
    let source = "#pragma shaderfilter set mix 2\n#pragma shaderfilter set mix 7";
    let (result, stripped) = audio_fft_core::preprocessor::preprocess(source);
    assert_eq!(result.parse("mix").unwrap(), "7");
    assert_eq!(stripped, "\n");
}

#[test]
fn preprocess_accepts_padding_and_multiword_values() {
    let source = "   #pragma   shaderfilter\tset   label   a value with spaces   \ncode";
    let (result, stripped) = audio_fft_core::preprocessor::preprocess(source);
    assert_eq!(result.parse("label").unwrap(), "a value with spaces");
    assert_eq!(stripped, "\ncode");
}

#[test]
fn preprocess_leaves_malformed_directives_alone() {
    let source = "#pragma shaderfilter set onlyname\n\
                  #pragma shaderfilter get a b\n\
                  #pragmax shaderfilter set a b\n\
                  # pragma shaderfilter set a b\n";
    let (result, stripped) = audio_fft_core::preprocessor::preprocess(source);
    assert!(result.parse("onlyname").is_none());
    assert!(result.parse("a").is_none());
    assert_eq!(stripped, source);
}

#[test]
fn preprocess_of_empty_source_is_empty() {
    let (result, stripped) = audio_fft_core::preprocessor::preprocess("");
    assert!(result.parse("mix").is_none());
    assert_eq!(stripped, "");
}

#[test]
fn parse_default_falls_back_and_reports_missing_names() {
    let mut result = PreprocessResult::new();
    result.insert(String::from("mix"), String::from("2"));
    assert_eq!(result.parse_default("mix", Some(String::from("9"))).unwrap(), "2");
    assert_eq!(result.parse_default("channel", Some(String::from("9"))).unwrap(), "9");
    let error = result.parse_default("channel", None).unwrap_err();
    assert_eq!(error, "Property `channel` is missing a definition.");
}
