use audio_fft_core::component::GlobalStateAudioFFT;
use audio_fft_core::descriptor::GlobalStateAudioFFTDescriptor;
use audio_fft_core::window::WindowFunction;
use audio_fft_core::samples_per_frame;
use num_complex::{Complex32, Complex64};

const FRAME: usize = 8;

fn descriptor(attack: f64, release: f64) -> GlobalStateAudioFFTDescriptor {
    GlobalStateAudioFFTDescriptor::new(
        0,
        0,
        Complex64::new(attack, 0.0),
        Complex64::new(release, 0.0),
        WindowFunction::Hanning,
    )
}

fn chunk(len: usize) -> Vec<Complex32> {
    (0..len)
        .map(|i| {
            let phase = 2.0 * std::f64::consts::PI * i as f64 / FRAME as f64;
            Complex32::new(phase.sin() as f32, 0.0)
        })
        .collect()
}

#[test]
fn samples_per_frame_from_rates() {
    assert_eq!(samples_per_frame(48000, 60, 1), 800);
    assert_eq!(samples_per_frame(44100, 30000, 1001), 1471);
    assert_eq!(samples_per_frame(48000, 120, 1), 400);
}

#[test]
fn fresh_component_has_no_result() {
    let mut component = GlobalStateAudioFFT::create(&descriptor(0.0, 0.0));
    assert!(component.retrieve_result().is_none());
}

#[test]
fn one_frame_produces_batch_zero() {
    let mut component = GlobalStateAudioFFT::create(&descriptor(0.0, 0.0));
    component.process_audio_data(&chunk(FRAME), FRAME, 60, 1);
    let result = component.retrieve_result().unwrap();
    assert_eq!(result.batch_number, 0);
    assert_eq!(result.frequency_spectrum.len(), FRAME / 2);
}

#[test]
fn repeated_retrieval_returns_the_same_batch() {
    let mut component = GlobalStateAudioFFT::create(&descriptor(0.0, 0.0));
    component.process_audio_data(&chunk(FRAME), FRAME, 60, 1);
    let first = component.retrieve_result().unwrap();
    let second = component.retrieve_result().unwrap();
    assert_eq!(first.batch_number, second.batch_number);
    assert_eq!(first.batch_number, 0);
    let first_bits: Vec<u32> = first.frequency_spectrum.iter().map(|c| c.re.to_bits()).collect();
    let second_bits: Vec<u32> = second.frequency_spectrum.iter().map(|c| c.re.to_bits()).collect();
    assert_eq!(first_bits, second_bits);
}

#[test]
fn batch_numbers_increase_with_each_analysis() {
    let mut component = GlobalStateAudioFFT::create(&descriptor(0.0, 0.0));
    component.process_audio_data(&chunk(FRAME), FRAME, 60, 1);
    assert_eq!(component.retrieve_result().unwrap().batch_number, 0);
    component.process_audio_data(&chunk(FRAME), FRAME, 60, 1);
    assert_eq!(component.retrieve_result().unwrap().batch_number, 1);
    component.process_audio_data(&chunk(FRAME), FRAME, 60, 1);
    assert_eq!(component.retrieve_result().unwrap().batch_number, 2);
}

#[test]
fn backlog_is_dropped_and_pending_batch_analyzed() {
    // Three frames in one callback with the initial batch pending: the two
    // older frames are dropped, the newest is drained for analysis, and
    // exactly one result with batch number zero comes out.
    let mut component = GlobalStateAudioFFT::create(&descriptor(0.0, 0.0));
    component.process_audio_data(&chunk(3 * FRAME), FRAME, 60, 1);
    assert_eq!(component.mutable.sample_buffer.len(), 0);
    let result = component.retrieve_result().unwrap();
    assert_eq!(result.batch_number, 0);
}

#[test]
fn backlog_retains_one_frame_without_a_pending_batch() {
    // With no consumer asking for a batch, a three-frame backlog shrinks to
    // exactly the newest frame and no analysis runs.
    let mut component = GlobalStateAudioFFT::create(&descriptor(0.0, 0.0));
    component.process_audio_data(&chunk(FRAME), FRAME, 60, 1);
    // Batch zero was produced; nothing is pending now.
    component.process_audio_data(&chunk(3 * FRAME), FRAME, 60, 1);
    assert_eq!(component.mutable.sample_buffer.len(), FRAME);
    let result = component.retrieve_result().unwrap();
    assert_eq!(result.batch_number, 0);
}

#[test]
fn no_analysis_without_a_full_frame() {
    let mut component = GlobalStateAudioFFT::create(&descriptor(0.0, 0.0));
    component.process_audio_data(&chunk(FRAME - 1), FRAME, 60, 1);
    assert!(component.retrieve_result().is_none());
    assert_eq!(component.mutable.sample_buffer.len(), FRAME - 1);
}

#[test]
fn unit_damping_keeps_the_first_spectrum() {
    // Attack and release factors of one retain the previous spectrum in
    // full, so the second batch equals the first bit for bit.
    let mut component = GlobalStateAudioFFT::create(&descriptor(1.0, 1.0));
    component.process_audio_data(&chunk(FRAME), FRAME, 60, 1);
    let first = component.retrieve_result().unwrap();
    let louder: Vec<Complex32> = chunk(FRAME).iter().map(|c| Complex32::new(c.re * 3.0, 0.0)).collect();
    component.process_audio_data(&louder, FRAME, 60, 1);
    let second = component.retrieve_result().unwrap();
    assert_eq!(second.batch_number, 1);
    let first_bits: Vec<u32> = first.frequency_spectrum.iter().map(|c| c.re.to_bits()).collect();
    let second_bits: Vec<u32> = second.frequency_spectrum.iter().map(|c| c.re.to_bits()).collect();
    assert_eq!(first_bits, second_bits);
}

#[test]
fn window_cache_follows_the_frame_size() {
    let mut component = GlobalStateAudioFFT::create(&descriptor(0.0, 0.0));
    component.process_audio_data(&chunk(FRAME), FRAME, 60, 1);
    assert_eq!(component.mutable.window.len(), FRAME);
    component.retrieve_result();
    component.process_audio_data(&chunk(2 * FRAME), 2 * FRAME, 60, 1);
    assert_eq!(component.mutable.window.len(), 2 * FRAME);
}
