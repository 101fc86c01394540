use vstd::prelude::*;
use crate::fops::{Scalar64, F32_ONE_BITS, c32_bits, usize_to_c32};

verus! {

/// An apodization window kind.  The cosine coefficients are double-precision
/// values held with their bit patterns (`Scalar64`), so that kinds can be
/// compared exactly, as a configuration key demands.
#[derive(Clone, Copy)]
pub enum WindowFunction {
    /// No apodization: every coefficient is one.
    Rectangular,
    Blackman,
    Cosine { a: Scalar64, b: Scalar64, c: Scalar64, d: Scalar64 },
    Hamming,
    Hanning,
    Nuttall,
    Triangular,
}

/// The mathematical identity of a window kind: the variant, and for the
/// generalized cosine window the coefficients' bit patterns.
pub enum WindowFunctionId {
    Rectangular,
    Blackman,
    Cosine { a: u64, b: u64, c: u64, d: u64 },
    Hamming,
    Hanning,
    Nuttall,
    Triangular,
}

impl WindowFunction {
    /// Each cosine coefficient's bit pattern matches its carried value.
    pub open spec fn wf(self) -> bool {
        match self {
            WindowFunction::Cosine { a, b, c, d } => a.wf() && b.wf() && c.wf() && d.wf(),
            _ => true,
        }
    }

    pub open spec fn id(self) -> WindowFunctionId {
        match self {
            WindowFunction::Rectangular => WindowFunctionId::Rectangular,
            WindowFunction::Blackman => WindowFunctionId::Blackman,
            WindowFunction::Cosine { a, b, c, d } => WindowFunctionId::Cosine {
                a: a.bits,
                b: b.bits,
                c: c.bits,
                d: d.bits,
            },
            WindowFunction::Hamming => WindowFunctionId::Hamming,
            WindowFunction::Hanning => WindowFunctionId::Hanning,
            WindowFunction::Nuttall => WindowFunctionId::Nuttall,
            WindowFunction::Triangular => WindowFunctionId::Triangular,
        }
    }

    /// The lengths for which coefficients can be generated: the cosine-family
    /// formulas divide by `length - 1`, and the triangular window needs at
    /// least one point.
    pub open spec fn can_generate(self, len: usize) -> bool {
        match self {
            WindowFunction::Rectangular => true,
            WindowFunction::Triangular => len >= 1,
            _ => len >= 2,
        }
    }

    /// Whether coefficients can be generated for a frame of `len` samples.
    pub fn fits_length(&self, len: usize) -> (r: bool)
        ensures
            r == self.can_generate(len),
    {
        match self {
            WindowFunction::Rectangular => true,
            WindowFunction::Triangular => len >= 1,
            _ => len >= 2,
        }
    }

    /// Exact equality of window kinds, comparing cosine coefficients by bit
    /// pattern, so that two configurations are the same key only when they
    /// are bit-identical.
    pub fn same_kind(&self, other: &WindowFunction) -> (r: bool)
        ensures
            r == (self.id() == other.id()),
    {
        match (self, other) {
            (WindowFunction::Rectangular, WindowFunction::Rectangular) => true,
            (WindowFunction::Blackman, WindowFunction::Blackman) => true,
            (
                WindowFunction::Cosine { a, b, c, d },
                WindowFunction::Cosine { a: a2, b: b2, c: c2, d: d2 },
            ) => a.bits == a2.bits && b.bits == b2.bits && c.bits == c2.bits && d.bits == d2.bits,
            (WindowFunction::Hamming, WindowFunction::Hamming) => true,
            (WindowFunction::Hanning, WindowFunction::Hanning) => true,
            (WindowFunction::Nuttall, WindowFunction::Nuttall) => true,
            (WindowFunction::Triangular, WindowFunction::Triangular) => true,
            _ => false,
        }
    }

    /// The apodization coefficients for a frame of `len` samples.  The
    /// rectangular window is all ones, exactly; the other kinds rely on the
    /// window crate, which fixes their count but whose values are
    /// transcendental and are checked by tests rather than proofs.
    pub fn generate_coefficients(&self, len: usize) -> (r: Vec<num_complex::Complex32>)
        requires
            self.can_generate(len),
        ensures
            r@.len() == len,
            self is Rectangular ==> forall|i: int|
                0 <= i < len ==> c32_bits(#[trigger] r@[i]) == F32_ONE_BITS,
    {
        match self {
            WindowFunction::Rectangular => {
                let mut coefficients: Vec<num_complex::Complex32> = Vec::new();
                let mut i: usize = 0;
                while i < len
                    invariant
                        i <= len,
                        coefficients@.len() == i,
                        forall|j: int|
                            0 <= j < i ==> c32_bits(#[trigger] coefficients@[j]) == F32_ONE_BITS,
                    decreases len - i,
                {
                    let one = usize_to_c32(1);
                    coefficients.push(one);
                    i = i + 1;
                }
                coefficients
            },
            WindowFunction::Blackman => blackman_coefficients(len),
            WindowFunction::Cosine { a, b, c, d } => cosine_coefficients(
                a.value,
                b.value,
                c.value,
                d.value,
                len,
            ),
            WindowFunction::Hamming => hamming_coefficients(len),
            WindowFunction::Hanning => hanning_coefficients(len),
            WindowFunction::Nuttall => nuttall_coefficients(len),
            WindowFunction::Triangular => triangular_coefficients(len),
        }
    }
}

/// Relies on `apodize::blackman_iter`, which yields exactly `len`
/// coefficients and panics unless `len > 1`.
#[verifier::external_body]
fn blackman_coefficients(len: usize) -> (r: Vec<num_complex::Complex32>)
    requires
        len >= 2,
    ensures
        r@.len() == len,
{
    apodize::blackman_iter(len).map(
        |coefficient| num_complex::Complex32::new(coefficient as _, Default::default()),
    ).collect()
}

/// Relies on `apodize::cosine_iter`, which yields exactly `len` generalized
/// cosine coefficients and panics unless `len > 1`.
#[verifier::external_body]
fn cosine_coefficients(
    a: num_complex::Complex64,
    b: num_complex::Complex64,
    c: num_complex::Complex64,
    d: num_complex::Complex64,
    len: usize,
) -> (r: Vec<num_complex::Complex32>)
    requires
        len >= 2,
    ensures
        r@.len() == len,
{
    apodize::cosine_iter(a.re, b.re, c.re, d.re, len).map(
        |coefficient| num_complex::Complex32::new(coefficient as _, Default::default()),
    ).collect()
}

/// Relies on `apodize::hamming_iter`, which yields exactly `len`
/// coefficients and panics unless `len > 1`.
#[verifier::external_body]
fn hamming_coefficients(len: usize) -> (r: Vec<num_complex::Complex32>)
    requires
        len >= 2,
    ensures
        r@.len() == len,
{
    apodize::hamming_iter(len).map(
        |coefficient| num_complex::Complex32::new(coefficient as _, Default::default()),
    ).collect()
}

/// Relies on `apodize::hanning_iter`, which yields exactly `len`
/// coefficients and panics unless `len > 1`.
#[verifier::external_body]
fn hanning_coefficients(len: usize) -> (r: Vec<num_complex::Complex32>)
    requires
        len >= 2,
    ensures
        r@.len() == len,
{
    apodize::hanning_iter(len).map(
        |coefficient| num_complex::Complex32::new(coefficient as _, Default::default()),
    ).collect()
}

/// Relies on `apodize::nuttall_iter`, which yields exactly `len`
/// coefficients and panics unless `len > 1`.
#[verifier::external_body]
fn nuttall_coefficients(len: usize) -> (r: Vec<num_complex::Complex32>)
    requires
        len >= 2,
    ensures
        r@.len() == len,
{
    apodize::nuttall_iter(len).map(
        |coefficient| num_complex::Complex32::new(coefficient as _, Default::default()),
    ).collect()
}

/// Relies on `apodize::triangular_iter`, which yields exactly `len`
/// coefficients and panics unless `len > 0`.
#[verifier::external_body]
fn triangular_coefficients(len: usize) -> (r: Vec<num_complex::Complex32>)
    requires
        len >= 1,
    ensures
        r@.len() == len,
{
    apodize::triangular_iter(len).map(
        |coefficient| num_complex::Complex32::new(coefficient as _, Default::default()),
    ).collect()
}

} // verus!
