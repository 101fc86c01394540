use vstd::prelude::*;
use crate::fops::Scalar64;
use crate::window::{WindowFunction, WindowFunctionId};

verus! {

/// The immutable configuration key of one audio analysis component: which mix
/// and channel to listen to, the damping factors, and the window kind.  Two
/// descriptors are the same key exactly when all fields agree, the damping
/// factors compared by bit pattern.
#[derive(Clone, Copy)]
pub struct GlobalStateAudioFFTDescriptor {
    pub mix: usize,
    pub channel: usize,
    pub dampening_factor_attack: Scalar64,
    pub dampening_factor_release: Scalar64,
    pub window_function: WindowFunction,
}

/// The identity of a descriptor: its plain fields, with each damping factor
/// as its bit pattern.
pub struct DescriptorId {
    pub mix: usize,
    pub channel: usize,
    pub attack: u64,
    pub release: u64,
    pub window: WindowFunctionId,
}

impl GlobalStateAudioFFTDescriptor {
    /// Every held bit pattern matches its carried value.
    pub open spec fn wf(self) -> bool {
        self.dampening_factor_attack.wf() && self.dampening_factor_release.wf()
            && self.window_function.wf()
    }

    pub open spec fn id(self) -> DescriptorId {
        DescriptorId {
            mix: self.mix,
            channel: self.channel,
            attack: self.dampening_factor_attack.bits,
            release: self.dampening_factor_release.bits,
            window: self.window_function.id(),
        }
    }

    pub fn new(
        mix: usize,
        channel: usize,
        dampening_factor_attack: num_complex::Complex64,
        dampening_factor_release: num_complex::Complex64,
        window_function: WindowFunction,
    ) -> (r: GlobalStateAudioFFTDescriptor)
        requires
            window_function.wf(),
        ensures
            r.wf(),
            r.mix == mix,
            r.channel == channel,
            r.dampening_factor_attack.value == dampening_factor_attack,
            r.dampening_factor_release.value == dampening_factor_release,
            r.window_function == window_function,
    {
        GlobalStateAudioFFTDescriptor {
            mix,
            channel,
            dampening_factor_attack: Scalar64::new(dampening_factor_attack),
            dampening_factor_release: Scalar64::new(dampening_factor_release),
            window_function,
        }
    }

    /// Exact key equality: all fields agree, damping factors bit for bit.
    pub fn same_key(&self, other: &GlobalStateAudioFFTDescriptor) -> (r: bool)
        ensures
            r == (self.id() == other.id()),
    {
        self.mix == other.mix && self.channel == other.channel
            && self.dampening_factor_attack.bits == other.dampening_factor_attack.bits
            && self.dampening_factor_release.bits == other.dampening_factor_release.bits
            && self.window_function.same_kind(&other.window_function)
    }
}

} // verus!
