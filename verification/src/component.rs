use vstd::prelude::*;
use std::collections::VecDeque;
use crate::descriptor::GlobalStateAudioFFTDescriptor;
use crate::analyzer::SpectralAnalyzer;
use crate::damping::DampingFilter;
use crate::fops::{c64_mul, c64_div, usize_to_c64, F64_ONE_BITS};

verus! {

/// One completed analysis: its sequence number and the published magnitudes,
/// one per frequency bin of the analyzed frame's first half.
pub struct FFTResult {
    pub batch_number: usize,
    pub frequency_spectrum: Vec<num_complex::Complex32>,
}

impl FFTResult {
    /// A copy with the same batch number and the same spectrum.
    pub fn duplicate(&self) -> (r: FFTResult)
        ensures
            r.batch_number == self.batch_number,
            r.frequency_spectrum@ == self.frequency_spectrum@,
    {
        let len = self.frequency_spectrum.len();
        let mut spectrum: Vec<num_complex::Complex32> = Vec::new();
        let mut i: usize = 0;
        while i < len
            invariant
                i <= len,
                len == self.frequency_spectrum@.len(),
                spectrum@ == self.frequency_spectrum@.take(i as int),
            decreases len - i,
        {
            spectrum.push(self.frequency_spectrum[i]);
            proof {
                assert(self.frequency_spectrum@.take(i + 1).drop_last() =~= self
                    .frequency_spectrum@.take(i as int));
            }
            i = i + 1;
        }
        proof {
            assert(self.frequency_spectrum@.take(len as int) =~= self.frequency_spectrum@);
        }
        FFTResult { batch_number: self.batch_number, frequency_spectrum: spectrum }
    }
}

/// The mutable state of an analysis component: the rolling sample buffer, the
/// cached window coefficients, whether a consumer has asked for a new batch,
/// and the latest completed result.
pub struct GlobalStateAudioFFTMutable {
    pub sample_buffer: VecDeque<num_complex::Complex32>,
    pub window: Vec<num_complex::Complex32>,
    /// Set during `retrieve_result` to indicate that the analysis of the next
    /// batch should be performed.
    pub next_batch_scheduled: bool,
    /// The result of the analysis.
    pub result: Option<FFTResult>,
}

impl GlobalStateAudioFFTMutable {
    /// The state of a freshly created (or re-created) component: nothing
    /// buffered, no window cached, no result yet, and the first batch already
    /// scheduled.
    pub open spec fn is_cold(self) -> bool {
        &&& self.sample_buffer@ == Seq::<num_complex::Complex32>::empty()
        &&& self.window@ == Seq::<num_complex::Complex32>::empty()
        &&& self.next_batch_scheduled
        &&& self.result is None
    }
}

impl Default for GlobalStateAudioFFTMutable {
    fn default() -> (r: GlobalStateAudioFFTMutable)
        ensures
            r.is_cold(),
    {
        GlobalStateAudioFFTMutable {
            sample_buffer: VecDeque::new(),
            window: Vec::new(),
            next_batch_scheduled: true,
            result: None,
        }
    }
}

/// What remains of the sample backlog after dropping every complete frame but
/// the newest: with more than one full frame buffered, all but the last
/// frame's worth (and the remainder) is discarded from the front.
pub open spec fn buffer_after_drop(all: Seq<num_complex::Complex32>, samples_per_frame: int) -> Seq<
    num_complex::Complex32,
> {
    let frames = all.len() as int / samples_per_frame;
    if frames > 1 {
        all.skip((frames - 1) * samples_per_frame)
    } else {
        all
    }
}

/// Law: backlog-dropping keeps the newest complete frame and the remainder
/// beyond it, never more: what stays is a suffix of what was buffered, holds
/// less than two frames' worth, and still holds a full frame whenever one was
/// buffered.
pub proof fn lemma_backlog_drop_bounds(all: Seq<num_complex::Complex32>, samples_per_frame: int)
    requires
        samples_per_frame >= 1,
    ensures
        buffer_after_drop(all, samples_per_frame).len() < 2 * samples_per_frame,
        all.len() >= samples_per_frame ==> buffer_after_drop(all, samples_per_frame).len()
            >= samples_per_frame,
        buffer_after_drop(all, samples_per_frame) == all.skip(
            all.len() - buffer_after_drop(all, samples_per_frame).len(),
        ),
{
    let frames = all.len() as int / samples_per_frame;
    vstd::arithmetic::div_mod::lemma_fundamental_div_mod(all.len() as int, samples_per_frame);
    vstd::arithmetic::div_mod::lemma_mod_bound(all.len() as int, samples_per_frame);
    if frames > 1 {
        assert((frames - 1) * samples_per_frame == frames * samples_per_frame
            - samples_per_frame) by (nonlinear_arith);
        assert(samples_per_frame * frames == frames * samples_per_frame) by (nonlinear_arith);
    } else {
        assert(all == all.skip(0));
        if all.len() >= samples_per_frame {
            assert(frames >= 1) by {
                vstd::arithmetic::div_mod::lemma_div_is_ordered(
                    samples_per_frame,
                    all.len() as int,
                    samples_per_frame,
                );
                vstd::arithmetic::div_mod::lemma_div_by_self(samples_per_frame);
            }
            assert(frames * samples_per_frame <= all.len());
            assert(2 * samples_per_frame > all.len()) by {
                assert(frames == 1);
                assert(samples_per_frame * 1 == samples_per_frame) by (nonlinear_arith);
            }
        }
    }
}

/// Law: retrieving twice in a row, with no analysis in between, returns the
/// same batch both times — a retrieval never advances or re-runs the
/// analysis.
pub proof fn lemma_repeated_retrieval_same_batch(
    s0: GlobalStateAudioFFT,
    s1: GlobalStateAudioFFT,
    s2: GlobalStateAudioFFT,
    first: Option<FFTResult>,
    second: Option<FFTResult>,
)
    requires
        GlobalStateAudioFFT::retrieve_ensures(s0, s1, first),
        GlobalStateAudioFFT::retrieve_ensures(s1, s2, second),
    ensures
        match (first, second) {
            (Some(a), Some(b)) => a.batch_number == b.batch_number && a.frequency_spectrum@
                == b.frequency_spectrum@,
            (None, None) => true,
            _ => false,
        },
{
}

/// Law: a component in its cold state has no result to hand out — after a
/// cold restart, the first retrieval returns nothing.
pub proof fn lemma_cold_retrieval_is_none(
    pre: GlobalStateAudioFFT,
    post: GlobalStateAudioFFT,
    r: Option<FFTResult>,
)
    requires
        pre.mutable.is_cold(),
        GlobalStateAudioFFT::retrieve_ensures(pre, post, r),
    ensures
        r is None,
{
}

/// One audio analysis component: a descriptor and the state it drives.  The
/// audio callback hands samples to `process_audio_data`; consumers pull with
/// `retrieve_result`.
pub struct GlobalStateAudioFFT {
    pub descriptor: GlobalStateAudioFFTDescriptor,
    pub mutable: GlobalStateAudioFFTMutable,
}

impl GlobalStateAudioFFT {
    pub open spec fn wf(self) -> bool {
        self.descriptor.wf()
    }

    /// The batch number the next completed analysis will carry.
    pub open spec fn next_batch_number(self) -> int {
        match self.mutable.result {
            Some(r) => r.batch_number + 1,
            None => 0,
        }
    }

    /// A component in its cold initial state for the given descriptor.
    pub fn create(descriptor: &GlobalStateAudioFFTDescriptor) -> (r: GlobalStateAudioFFT)
        requires
            descriptor.wf(),
        ensures
            r.wf(),
            r.descriptor == *descriptor,
            r.mutable.is_cold(),
    {
        GlobalStateAudioFFT { descriptor: *descriptor, mutable: Default::default() }
    }

    /// What `process_audio_data` asks of its caller: a well-formed component,
    /// a frame size the window kind can serve, and room for the chunk and the
    /// next batch number.
    pub open spec fn process_requires(self, samples: Seq<num_complex::Complex32>, samples_per_frame: usize) -> bool {
        &&& self.wf()
        &&& samples_per_frame >= 1
        &&& self.descriptor.window_function.can_generate(samples_per_frame)
        &&& self.mutable.sample_buffer@.len() + samples.len() <= usize::MAX
        &&& self.next_batch_number() <= usize::MAX
    }

    /// How the state after one audio callback relates to the state before it.
    /// Without a pending request the chunk is only buffered (and backlog
    /// dropped); with one but less than a full frame buffered, the request
    /// stays pending; with one and a full frame, exactly one frame is drained
    /// and analyzed and the result published under the next batch number.
    pub open spec fn process_ensures(
        pre: GlobalStateAudioFFT,
        post: GlobalStateAudioFFT,
        samples: Seq<num_complex::Complex32>,
        samples_per_frame: usize,
    ) -> bool {
        let all = pre.mutable.sample_buffer@ + samples;
        let frames = all.len() as int / samples_per_frame as int;
        let dropped = buffer_after_drop(all, samples_per_frame as int);
        &&& post.wf()
        &&& post.descriptor == pre.descriptor
        &&& (!pre.mutable.next_batch_scheduled ==> {
            &&& post.mutable.sample_buffer@ == dropped
            &&& post.mutable.result == pre.mutable.result
            &&& !post.mutable.next_batch_scheduled
            &&& post.mutable.window == pre.mutable.window
        })
        &&& (pre.mutable.next_batch_scheduled && frames == 0 ==> {
            &&& post.mutable.sample_buffer@ == dropped
            &&& post.mutable.result == pre.mutable.result
            &&& post.mutable.next_batch_scheduled
            &&& post.mutable.window == pre.mutable.window
        })
        &&& (pre.mutable.next_batch_scheduled && frames >= 1 ==> {
            &&& post.mutable.sample_buffer@ == dropped.skip(samples_per_frame as int)
            &&& !post.mutable.next_batch_scheduled
            &&& post.mutable.window@.len() == samples_per_frame
            &&& (pre.mutable.window@.len() == samples_per_frame ==> post.mutable.window
                == pre.mutable.window)
            &&& match post.mutable.result {
                Some(res) => {
                    &&& res.batch_number == pre.next_batch_number()
                    &&& res.frequency_spectrum@.len() == samples_per_frame as int / 2
                    &&& (pre.descriptor.dampening_factor_attack.bits == F64_ONE_BITS
                        && pre.descriptor.dampening_factor_release.bits
                        == F64_ONE_BITS ==> match pre.mutable.result {
                        Some(prev) => prev.frequency_spectrum@.len() == samples_per_frame
                            as int / 2 ==> res.frequency_spectrum@
                            == prev.frequency_spectrum@,
                        None => true,
                    })
                },
                None => false,
            }
        })
    }

    /// One audio callback: append the chunk, drop backlog beyond the newest
    /// complete frame, and, if a batch was requested and a full frame is
    /// buffered, analyze exactly one frame, dampen it against the previous
    /// result, and publish it with the next batch number.
    ///
    /// `samples_per_frame` is recomputed by the caller on every call from the
    /// host's current sample rate and frame rate; the frame rate
    /// (`framerate_numerator / framerate_denominator`) also converts the
    /// number of frames spanned by this callback into elapsed time for the
    /// damping filter.
    pub fn process_audio_data(
        &mut self,
        samples: &Vec<num_complex::Complex32>,
        samples_per_frame: usize,
        framerate_numerator: usize,
        framerate_denominator: usize,
    )
        requires
            old(self).process_requires(samples@, samples_per_frame),
        ensures
            Self::process_ensures(*old(self), *final(self), samples@, samples_per_frame),
    {
        let ghost old_buffer = self.mutable.sample_buffer@;
        let ghost all = old(self).mutable.sample_buffer@ + samples@;

        // Append the chunk to the rolling buffer.
        let mut buffer: VecDeque<num_complex::Complex32> = VecDeque::new();
        core::mem::swap(&mut buffer, &mut self.mutable.sample_buffer);
        let sample_count = samples.len();
        let mut i: usize = 0;
        while i < sample_count
            invariant
                i <= sample_count,
                sample_count == samples@.len(),
                old_buffer.len() + samples@.len() <= usize::MAX,
                buffer@ == old_buffer + samples@.take(i as int),
            decreases sample_count - i,
        {
            buffer.push_back(samples[i]);
            proof {
                assert(samples@.take(i + 1).drop_last() =~= samples@.take(i as int));
                assert((old_buffer + samples@.take(i + 1)).drop_last() =~= old_buffer
                    + samples@.take(i as int));
            }
            i = i + 1;
        }
        proof {
            assert(samples@.take(sample_count as int) =~= samples@);
            assert(buffer@ =~= all);
        }

        // Drop every complete frame but the newest from the front.
        let total = buffer.len();
        let frames_accumulated = total / samples_per_frame;
        proof {
            let t = total as int;
            let s = samples_per_frame as int;
            vstd::arithmetic::div_mod::lemma_fundamental_div_mod(t, s);
            vstd::arithmetic::div_mod::lemma_mod_bound(t, s);
            assert((t / s - 1) * s == (t / s) * s - s) by (nonlinear_arith);
            assert(s * (t / s) == (t / s) * s) by (nonlinear_arith);
        }
        let frames_over_margin = if frames_accumulated > 0 {
            frames_accumulated - 1
        } else {
            0
        };
        if frames_over_margin > 0 {
            let samples_to_remove = frames_over_margin * samples_per_frame;
            let mut removed: usize = 0;
            while removed < samples_to_remove
                invariant
                    removed <= samples_to_remove,
                    samples_to_remove <= all.len(),
                    buffer@ == all.skip(removed as int),
                decreases samples_to_remove - removed,
            {
                let _ = buffer.pop_front();
                proof {
                    assert(all.skip(removed as int).subrange(
                        1,
                        all.skip(removed as int).len() as int,
                    ) =~= all.skip(removed + 1));
                }
                removed = removed + 1;
            }
        }
        let ghost dropped = buffer_after_drop(all, samples_per_frame as int);
        proof {
            assert(buffer@ =~= dropped);
        }

        if !self.mutable.next_batch_scheduled {
            self.mutable.sample_buffer = buffer;
            return;
        }

        if frames_accumulated > 0 {
            // The buffer now holds the newest complete frame and the
            // remainder beyond it.
            if self.mutable.window.len() != samples_per_frame {
                self.mutable.window = self.descriptor.window_function.generate_coefficients(
                    samples_per_frame,
                );
            }

            // Drain exactly one frame from the head.
            let mut frame: Vec<num_complex::Complex32> = Vec::new();
            let mut drained: usize = 0;
            while drained < samples_per_frame
                invariant
                    drained <= samples_per_frame,
                    samples_per_frame <= dropped.len(),
                    frame@ == dropped.take(drained as int),
                    buffer@ == dropped.skip(drained as int),
                decreases samples_per_frame - drained,
            {
                let sample = buffer.pop_front().unwrap();
                frame.push(sample);
                proof {
                    assert(dropped.take(drained + 1).drop_last() =~= dropped.take(drained as int));
                    assert(dropped.skip(drained as int).subrange(
                        1,
                        dropped.skip(drained as int).len() as int,
                    ) =~= dropped.skip(drained + 1));
                }
                drained = drained + 1;
            }

            let raw_spectrum = SpectralAnalyzer::analyze(&frame, &self.mutable.window);
            let elapsed_time = c64_div(
                c64_mul(
                    usize_to_c64(frames_accumulated),
                    usize_to_c64(framerate_denominator),
                ),
                usize_to_c64(framerate_numerator),
            );
            let filter = DampingFilter {
                attack_factor: self.descriptor.dampening_factor_attack,
                release_factor: self.descriptor.dampening_factor_release,
            };
            let previous_spectrum = match &self.mutable.result {
                Some(previous) => Some(&previous.frequency_spectrum),
                None => None,
            };
            let dampened = filter.apply(raw_spectrum, previous_spectrum, elapsed_time);
            let next_batch_number = match &self.mutable.result {
                Some(previous) => previous.batch_number + 1,
                None => 0,
            };
            self.mutable.result = Some(
                FFTResult { batch_number: next_batch_number, frequency_spectrum: dampened },
            );
            self.mutable.next_batch_scheduled = false;
        }
        self.mutable.sample_buffer = buffer;
    }

    /// How the state and the returned copy relate to the state before a
    /// retrieval: everything is kept except that the next batch is now
    /// scheduled, and the returned value is a copy of the latest result.
    pub open spec fn retrieve_ensures(
        pre: GlobalStateAudioFFT,
        post: GlobalStateAudioFFT,
        r: Option<FFTResult>,
    ) -> bool {
        &&& post.descriptor == pre.descriptor
        &&& post.mutable.sample_buffer == pre.mutable.sample_buffer
        &&& post.mutable.window == pre.mutable.window
        &&& post.mutable.result == pre.mutable.result
        &&& post.mutable.next_batch_scheduled
        &&& match (r, pre.mutable.result) {
            (Some(returned), Some(latest)) => returned.batch_number == latest.batch_number
                && returned.frequency_spectrum@ == latest.frequency_spectrum@,
            (None, None) => true,
            _ => false,
        }
    }

    /// Requests the analysis of the next batch and returns a copy of the
    /// latest result, which may be missing (no analysis has completed yet) or
    /// stale (none has completed since the previous retrieval).  The state is
    /// otherwise untouched, so retrieving twice without new analysis yields
    /// the same batch.
    pub fn retrieve_result(&mut self) -> (r: Option<FFTResult>)
        ensures
            Self::retrieve_ensures(*old(self), *final(self), r),
    {
        self.mutable.next_batch_scheduled = true;
        match &self.mutable.result {
            Some(latest) => Some(latest.duplicate()),
            None => None,
        }
    }
}

} // verus!
