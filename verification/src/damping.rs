use vstd::prelude::*;
use crate::fops::{
    Scalar32, Scalar64, c32_bits, add32_bits, sub32_bits, mul32_bits, F32_ONE_BITS, F64_ONE_BITS,
    c32_to_bits, c32_add, c32_sub, c32_mul, c64_powf, c64_clamp, c64_to_c32, usize_to_c64,
};
use crate::fbits::{f32_gt_bits, f64_positive_bits, f32_gt, f64_positive, agrees32, f32_is_nan_bits};

verus! {

/// One dampened bin where a previous value exists: the blend
/// `mult * previous + (1 - mult) * current`, over bit patterns.
pub open spec fn blend_bits(mult: u32, previous: u32, current: u32) -> u32 {
    add32_bits(
        mul32_bits(mult, previous),
        mul32_bits(sub32_bits(F32_ONE_BITS, mult), current),
    )
}

/// Whether the blend stays clear of NaN at every intermediate step, so that
/// each step's bit pattern is fixed exactly.  (The final sum may still be a
/// NaN; `agrees32` covers it.)
pub open spec fn blend_defined(mult: u32, previous: u32, current: u32) -> bool {
    let kept = mul32_bits(mult, previous);
    let rest = sub32_bits(F32_ONE_BITS, mult);
    let added = mul32_bits(rest, current);
    &&& !f32_is_nan_bits(kept)
    &&& !f32_is_nan_bits(rest)
    &&& !f32_is_nan_bits(added)
}

/// How a dampened spectrum `r` relates to the raw spectrum and the previous
/// one, given the attack and release multipliers (as bit patterns).  Bins
/// where the raw value exceeds the previous one blend with the attack
/// multiplier, the others with the release multiplier; a multiplier of
/// exactly one keeps the previous value itself; bins beyond the previous
/// spectrum's length stay raw.  A blend that runs through a NaN is pinned
/// only to NaN-ness, since IEEE 754 leaves a NaN's payload bits open.
pub open spec fn dampened_post(
    r: Seq<num_complex::Complex32>,
    raw: Seq<num_complex::Complex32>,
    previous: Seq<num_complex::Complex32>,
    attack_mult: u32,
    release_mult: u32,
) -> bool {
    &&& r.len() == raw.len()
    &&& forall|i: int| #![trigger r[i]] 0 <= i < raw.len() ==> {
        if i < previous.len() {
            let raw_bits = c32_bits(raw[i]);
            let previous_bits = c32_bits(previous[i]);
            let mult = if f32_gt_bits(raw_bits, previous_bits) {
                attack_mult
            } else {
                release_mult
            };
            if mult == F32_ONE_BITS {
                r[i] == previous[i]
            } else if blend_defined(mult, previous_bits, raw_bits) {
                agrees32(c32_bits(r[i]), blend_bits(mult, previous_bits, raw_bits))
            } else {
                f32_is_nan_bits(c32_bits(r[i]))
            }
        } else {
            r[i] == raw[i]
        }
    }
}

/// Exponential smoothing of a new spectrum against the previous one, with
/// independent attack and release factors in `[0, 1]`.
pub struct DampingFilter {
    pub attack_factor: Scalar64,
    pub release_factor: Scalar64,
}

impl DampingFilter {
    pub open spec fn wf(self) -> bool {
        self.attack_factor.wf() && self.release_factor.wf()
    }

    pub fn new(attack_factor: num_complex::Complex64, release_factor: num_complex::Complex64) -> (r: DampingFilter)
        ensures
            r.wf(),
            r.attack_factor.value == attack_factor,
            r.release_factor.value == release_factor,
    {
        DampingFilter {
            attack_factor: Scalar64::new(attack_factor),
            release_factor: Scalar64::new(release_factor),
        }
    }

    /// The blend weight for one factor and the elapsed time (in frame units):
    /// `factor ^ elapsed_time`, clamped to `[0, 1]`, in single precision.  A
    /// factor of exactly one yields exactly one whatever the elapsed time,
    /// since one raised to any power is one.
    pub fn damping_multiplier(factor: &Scalar64, elapsed_time: num_complex::Complex64) -> (r: Scalar32)
        requires
            factor.wf(),
        ensures
            r.wf(),
            factor.bits == F64_ONE_BITS ==> r.bits == F32_ONE_BITS,
    {
        if factor.bits == F64_ONE_BITS {
            Scalar32::one()
        } else {
            let zero = usize_to_c64(0);
            let one = usize_to_c64(1);
            let clamped = c64_clamp(c64_powf(factor.value, elapsed_time), zero, one);
            Scalar32::new(c64_to_c32(clamped))
        }
    }

    /// Blends a raw spectrum with the previous one, bin by bin, using the
    /// attack multiplier where the raw value exceeds the previous one and the
    /// release multiplier elsewhere.
    pub fn dampen_spectrum(
        raw: &Vec<num_complex::Complex32>,
        previous: &Vec<num_complex::Complex32>,
        attack_mult: Scalar32,
        release_mult: Scalar32,
    ) -> (r: Vec<num_complex::Complex32>)
        requires
            attack_mult.wf(),
            release_mult.wf(),
        ensures
            dampened_post(r@, raw@, previous@, attack_mult.bits, release_mult.bits),
    {
        let len = raw.len();
        let previous_len = previous.len();
        let one = Scalar32::one();
        let mut dampened: Vec<num_complex::Complex32> = Vec::new();
        let mut i: usize = 0;
        while i < len
            invariant
                i <= len,
                len == raw@.len(),
                previous_len == previous@.len(),
                attack_mult.wf(),
                release_mult.wf(),
                one.wf(),
                one.bits == F32_ONE_BITS,
                dampened@.len() == i,
                dampened_post(dampened@, raw@.take(i as int), previous@, attack_mult.bits, release_mult.bits),
            decreases len - i,
        {
            if i < previous_len {
                let raw_bits = c32_to_bits(raw[i]);
                let previous_bits = c32_to_bits(previous[i]);
                let mult = if f32_gt(raw_bits, previous_bits) {
                    attack_mult
                } else {
                    release_mult
                };
                if mult.bits == F32_ONE_BITS {
                    dampened.push(previous[i]);
                } else {
                    let kept = c32_mul(mult.value, previous[i]);
                    let added = c32_mul(c32_sub(one.value, mult.value), raw[i]);
                    dampened.push(c32_add(kept, added));
                }
            } else {
                dampened.push(raw[i]);
            }
            proof {
                assert(raw@.take(i + 1).drop_last() =~= raw@.take(i as int));
                assert(raw@.take(i + 1)[i as int] == raw@[i as int]);
            }
            i = i + 1;
        }
        proof {
            assert(raw@.take(len as int) =~= raw@);
        }
        dampened
    }

    /// Smooths `raw` against the previous spectrum.  With both factors not
    /// positive, or without a previous spectrum, the raw spectrum passes
    /// through unchanged.  `elapsed_time` is the time since the previous
    /// result, in frame units, and makes the damping rate frame-rate
    /// independent: each multiplier is `factor ^ elapsed_time` clamped to
    /// `[0, 1]`.
    pub fn apply(
        &self,
        raw: Vec<num_complex::Complex32>,
        previous: Option<&Vec<num_complex::Complex32>>,
        elapsed_time: num_complex::Complex64,
    ) -> (r: Vec<num_complex::Complex32>)
        requires
            self.wf(),
        ensures
            self.attack_factor.bits == 0 && self.release_factor.bits == 0 ==> r@ == raw@,
            !f64_positive_bits(self.attack_factor.bits) && !f64_positive_bits(self.release_factor.bits)
                ==> r@ == raw@,
            previous is None ==> r@ == raw@,
            previous matches Some(p) ==> ((f64_positive_bits(self.attack_factor.bits)
                || f64_positive_bits(self.release_factor.bits)) ==> exists|am: u32, rm: u32| {
                &&& #[trigger] dampened_post(r@, raw@, p@, am, rm)
                &&& (self.attack_factor.bits == F64_ONE_BITS ==> am == F32_ONE_BITS)
                &&& (self.release_factor.bits == F64_ONE_BITS ==> rm == F32_ONE_BITS)
            }),
            previous matches Some(p) ==> (self.attack_factor.bits == F64_ONE_BITS
                && self.release_factor.bits == F64_ONE_BITS && p@.len() == raw@.len() ==> r@ == p@),
    {
        let damping_active = f64_positive(self.attack_factor.bits)
            || f64_positive(self.release_factor.bits);
        if !damping_active {
            proof {
                crate::fbits::lemma_one_bits_positive();
            }
            return raw;
        }
        match previous {
            Option::None => raw,
            Option::Some(previous_spectrum) => {
                let attack_mult = Self::damping_multiplier(&self.attack_factor, elapsed_time);
                let release_mult = Self::damping_multiplier(&self.release_factor, elapsed_time);
                let dampened = Self::dampen_spectrum(&raw, previous_spectrum, attack_mult, release_mult);
                proof {
                    if self.attack_factor.bits == F64_ONE_BITS
                        && self.release_factor.bits == F64_ONE_BITS
                        && previous_spectrum@.len() == raw@.len() {
                        lemma_unit_multipliers_retain_previous(dampened@, raw@, previous_spectrum@);
                    }
                }
                dampened
            },
        }
    }
}

/// Law: with both multipliers exactly one, every dampened bin keeps the
/// previous value — the filter fully retains the old spectrum, whatever the
/// raw one holds.
pub proof fn lemma_unit_multipliers_retain_previous(
    r: Seq<num_complex::Complex32>,
    raw: Seq<num_complex::Complex32>,
    previous: Seq<num_complex::Complex32>,
)
    requires
        dampened_post(r, raw, previous, F32_ONE_BITS, F32_ONE_BITS),
        raw.len() == previous.len(),
    ensures
        r =~= previous,
{
}

} // verus!
