//! A streaming audio spectrum pipeline for shader effects: apodization
//! windows, windowed Fourier analysis of fixed-size sample frames with
//! normalized half-spectrum magnitudes, exponential attack/release damping of
//! successive spectra, a pull-based analysis component with backlog-dropping
//! sample buffering, and a registry that shares one component per distinct
//! configuration among its consumers.  A shader-source preprocessor collects
//! the `#pragma shaderfilter set` directives that configure the pipeline.
//!
//! Scalars are carried inside complex numbers (`num_complex`), and every
//! contract speaks of their IEEE 754 bit patterns; see `fops` for the model.

pub mod fbits;
pub mod fops;
pub mod window;
pub mod analyzer;
pub mod damping;
pub mod descriptor;
pub mod component;
pub mod registry;
pub mod indexed;
pub mod preprocessor;

use vstd::prelude::*;

verus! {

/// Number of audio samples in one video frame, derived from the audio sample
/// rate and the video frame rate (`framerate = numerator / denominator`).
pub fn samples_per_frame(samples_per_second: usize, framerate_numerator: usize, framerate_denominator: usize) -> (r: usize)
    requires
        framerate_numerator > 0,
        samples_per_second * framerate_denominator <= usize::MAX,
    ensures
        r == (samples_per_second * framerate_denominator) / framerate_numerator as int,
{
    (samples_per_second * framerate_denominator) / framerate_numerator
}

} // verus!
