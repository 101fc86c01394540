use audio_fft_core::registry::{GlobalState, GlobalStateComponent};
use audio_fft_core::descriptor::GlobalStateAudioFFTDescriptor;
use audio_fft_core::window::WindowFunction;
use num_complex::{Complex32, Complex64};

const FRAME: usize = 8;

fn descriptor(mix: usize, channel: usize) -> GlobalStateAudioFFTDescriptor {
    GlobalStateAudioFFTDescriptor::new(
        mix,
        channel,
        Complex64::new(0.35, 0.0),
        Complex64::new(0.65, 0.0),
        WindowFunction::Hanning,
    )
}

fn chunk(len: usize) -> Vec<Complex32> {
    (0..len)
        .map(|i| {
            let phase = 2.0 * std::f64::consts::PI * i as f64 / FRAME as f64;
            Complex32::new(phase.sin() as f32, 0.0)
        })
        .collect()
}

#[test]
fn identical_descriptors_share_one_component() {
    // Two requests with equal descriptors refer to the same component: audio
    // fed under one handle is visible to a retrieval under the other.
    let mut registry = GlobalState::new();
    let first_handle = descriptor(0, 0);
    let second_handle = descriptor(0, 0);
    registry.request_audio_fft(&first_handle);
    registry.request_audio_fft(&second_handle);
    assert_eq!(registry.audio_ffts.len(), 1);

    registry.process_audio_data(&first_handle, &chunk(FRAME), FRAME, 60, 1);
    let seen = registry.retrieve_result(&second_handle);
    assert_eq!(seen.unwrap().batch_number, 0);
}

#[test]
fn different_channels_get_independent_components() {
    let mut registry = GlobalState::new();
    let left = descriptor(0, 0);
    let right = descriptor(0, 1);
    registry.request_audio_fft(&left);
    registry.request_audio_fft(&right);
    assert_eq!(registry.audio_ffts.len(), 2);

    registry.process_audio_data(&left, &chunk(FRAME), FRAME, 60, 1);
    assert!(registry.retrieve_result(&left).is_some());
    assert!(registry.retrieve_result(&right).is_none());
}

#[test]
fn rerequest_after_full_release_starts_cold() {
    // With every strong handle released the component is destroyed; a new
    // request for the same descriptor builds a fresh one whose latest result
    // is absent.
    let mut registry = GlobalState::new();
    let handle = descriptor(0, 0);
    registry.request_audio_fft(&handle);
    registry.process_audio_data(&handle, &chunk(FRAME), FRAME, 60, 1);
    assert!(registry.retrieve_result(&handle).is_some());

    registry.release_audio_fft(&handle);
    registry.request_audio_fft(&handle);
    assert!(registry.retrieve_result(&handle).is_none());
}

#[test]
fn release_keeps_the_component_while_handles_remain() {
    let mut registry = GlobalState::new();
    let handle = descriptor(0, 0);
    registry.request_audio_fft(&handle);
    registry.request_audio_fft(&handle);
    registry.process_audio_data(&handle, &chunk(FRAME), FRAME, 60, 1);

    registry.release_audio_fft(&handle);
    // One handle still outstanding: the state survives.
    assert_eq!(registry.retrieve_result(&handle).unwrap().batch_number, 0);
}

#[test]
fn dead_slots_are_pruned_on_insert() {
    let mut registry = GlobalState::new();
    let first = descriptor(0, 0);
    let second = descriptor(0, 1);
    registry.request_audio_fft(&first);
    registry.release_audio_fft(&first);
    assert_eq!(registry.audio_ffts.len(), 1);
    // Inserting a new descriptor sweeps the dead slot away.
    registry.request_audio_fft(&second);
    assert_eq!(registry.audio_ffts.len(), 1);
}

#[test]
fn slot_upgrade_counts_handles() {
    let mut slot = GlobalStateComponent::new(descriptor(2, 1));
    assert!(!slot.try_get_component());
    slot.get_component();
    assert!(slot.try_get_component());
    slot.get_component();
    slot.release();
    assert!(slot.try_get_component());
    slot.release();
    assert!(!slot.try_get_component());
}
