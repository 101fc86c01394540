use vstd::prelude::*;
use crate::fbits::{agrees32, agrees64, f32_is_nan_bits, f64_is_nan_bits};

verus! {

// Floating-point values are kept out of the verified code: every scalar that
// the library handles is carried inside a `num_complex` complex number (the
// value in the real part), and all contracts speak of the IEEE 754 bit
// pattern of that value.  The arithmetic itself happens in small trusted
// wrappers below.  IEEE 754 fixes the basic operations exactly (correctly
// rounded), with one reservation: which results are NaN is fixed, but a NaN
// result's payload bits are not, so each named result is promised bit for bit
// only where it is not a NaN (`agrees32`/`agrees64`), a NaN result is promised
// to be some NaN, and a NaN operand is promised to propagate.

/// IEEE bit pattern of `1.0` in single precision.
pub const F32_ONE_BITS: u32 = 0x3F80_0000;

/// IEEE bit pattern of `4.0` in single precision.
pub const F32_FOUR_BITS: u32 = 0x4080_0000;

/// IEEE bit pattern of `1.0` in double precision.
pub const F64_ONE_BITS: u64 = 0x3FF0_0000_0000_0000;

#[verifier::external_type_specification]
#[verifier::external_body]
#[verifier::reject_recursive_types(T)]
pub struct ExComplex<T>(num_complex::Complex<T>);

/// The IEEE bit pattern of the real part of a single-precision carrier.
pub uninterp spec fn c32_bits(c: num_complex::Complex32) -> u32;

/// The IEEE bit pattern of the imaginary part of a single-precision carrier.
pub uninterp spec fn c32_im_bits(c: num_complex::Complex32) -> u32;

/// The IEEE bit pattern of the real part of a double-precision carrier.
pub uninterp spec fn c64_bits(c: num_complex::Complex64) -> u64;

/// What single-precision addition yields, over IEEE bit patterns (a NaN
/// result stands for the whole NaN class).
pub uninterp spec fn add32_bits(a: u32, b: u32) -> u32;

/// What single-precision subtraction yields, over IEEE bit patterns (a NaN
/// result stands for the whole NaN class).
pub uninterp spec fn sub32_bits(a: u32, b: u32) -> u32;

/// What single-precision multiplication yields, over IEEE bit patterns (a
/// NaN result stands for the whole NaN class).
pub uninterp spec fn mul32_bits(a: u32, b: u32) -> u32;

/// What single-precision division yields, over IEEE bit patterns (a NaN
/// result stands for the whole NaN class).
pub uninterp spec fn div32_bits(a: u32, b: u32) -> u32;

/// What the single-precision square root yields, over IEEE bit patterns (a
/// NaN result stands for the whole NaN class).
pub uninterp spec fn sqrt32_bits(a: u32) -> u32;

/// What double-precision multiplication yields, over IEEE bit patterns (a
/// NaN result stands for the whole NaN class).
pub uninterp spec fn mul64_bits(a: u64, b: u64) -> u64;

/// What double-precision division yields, over IEEE bit patterns (a NaN
/// result stands for the whole NaN class).
pub uninterp spec fn div64_bits(a: u64, b: u64) -> u64;

/// The single-precision value that a `usize` converts to (rounds to nearest).
pub uninterp spec fn f32_of_usize(n: usize) -> u32;

/// The double-precision value that a `usize` converts to (rounds to nearest).
pub uninterp spec fn f64_of_usize(n: usize) -> u64;

/// The single-precision value that a double-precision value other than a NaN
/// shortens to (rounds to nearest).
pub uninterp spec fn shorten_bits(a: u64) -> u32;

/// Relies on `f32::to_bits`: the bit pattern of the carried value.
#[verifier::external_body]
pub fn c32_to_bits(c: num_complex::Complex32) -> (r: u32)
    ensures
        r == c32_bits(c),
{
    c.re.to_bits()
}

/// Relies on `f64::to_bits`: the bit pattern of the carried value.
#[verifier::external_body]
pub fn c64_to_bits(c: num_complex::Complex64) -> (r: u64)
    ensures
        r == c64_bits(c),
{
    c.re.to_bits()
}

/// Relies on single-precision addition: correctly rounded, so exact up to a
/// NaN result's payload bits; a NaN operand gives a NaN result.
#[verifier::external_body]
pub fn c32_add(a: num_complex::Complex32, b: num_complex::Complex32) -> (r: num_complex::Complex32)
    ensures
        agrees32(c32_bits(r), add32_bits(c32_bits(a), c32_bits(b))),
        f32_is_nan_bits(c32_bits(a)) || f32_is_nan_bits(c32_bits(b)) ==> f32_is_nan_bits(
            c32_bits(r),
        ),
{
    num_complex::Complex32::new(a.re + b.re, Default::default())
}

/// Relies on single-precision subtraction: correctly rounded, so exact up to
/// a NaN result's payload bits; a NaN operand gives a NaN result.
#[verifier::external_body]
pub fn c32_sub(a: num_complex::Complex32, b: num_complex::Complex32) -> (r: num_complex::Complex32)
    ensures
        agrees32(c32_bits(r), sub32_bits(c32_bits(a), c32_bits(b))),
        f32_is_nan_bits(c32_bits(a)) || f32_is_nan_bits(c32_bits(b)) ==> f32_is_nan_bits(
            c32_bits(r),
        ),
{
    num_complex::Complex32::new(a.re - b.re, Default::default())
}

/// Relies on single-precision multiplication: correctly rounded, so exact up
/// to a NaN result's payload bits; a NaN operand gives a NaN result.  The
/// carrier's imaginary part is zero, so the result can feed a Fourier
/// transform of a real signal.
#[verifier::external_body]
pub fn c32_mul(a: num_complex::Complex32, b: num_complex::Complex32) -> (r: num_complex::Complex32)
    ensures
        agrees32(c32_bits(r), mul32_bits(c32_bits(a), c32_bits(b))),
        f32_is_nan_bits(c32_bits(a)) || f32_is_nan_bits(c32_bits(b)) ==> f32_is_nan_bits(
            c32_bits(r),
        ),
        c32_im_bits(r) == 0,
{
    num_complex::Complex32::new(a.re * b.re, Default::default())
}

/// Relies on single-precision division: correctly rounded, so exact up to a
/// NaN result's payload bits; a NaN operand gives a NaN result.
#[verifier::external_body]
pub fn c32_div(a: num_complex::Complex32, b: num_complex::Complex32) -> (r: num_complex::Complex32)
    ensures
        agrees32(c32_bits(r), div32_bits(c32_bits(a), c32_bits(b))),
        f32_is_nan_bits(c32_bits(a)) || f32_is_nan_bits(c32_bits(b)) ==> f32_is_nan_bits(
            c32_bits(r),
        ),
{
    num_complex::Complex32::new(a.re / b.re, Default::default())
}

/// Relies on `f32::sqrt`, whose result the documentation guarantees to be
/// correctly rounded: exact up to a NaN result's payload bits (the root of a
/// negative value is a NaN); a NaN operand gives a NaN result.
#[verifier::external_body]
pub fn c32_sqrt(a: num_complex::Complex32) -> (r: num_complex::Complex32)
    ensures
        agrees32(c32_bits(r), sqrt32_bits(c32_bits(a))),
        f32_is_nan_bits(c32_bits(a)) ==> f32_is_nan_bits(c32_bits(r)),
{
    num_complex::Complex32::new(a.re.sqrt(), Default::default())
}

/// Relies on field access alone: a carrier holding the imaginary part of the
/// given complex number in its real part.
#[verifier::external_body]
pub fn c32_im_part(c: num_complex::Complex32) -> (r: num_complex::Complex32)
    ensures
        c32_bits(r) == c32_im_bits(c),
{
    num_complex::Complex32::new(c.im, Default::default())
}

/// Relies on double-precision multiplication: correctly rounded, so exact up
/// to a NaN result's payload bits; a NaN operand gives a NaN result.
#[verifier::external_body]
pub fn c64_mul(a: num_complex::Complex64, b: num_complex::Complex64) -> (r: num_complex::Complex64)
    ensures
        agrees64(c64_bits(r), mul64_bits(c64_bits(a), c64_bits(b))),
        f64_is_nan_bits(c64_bits(a)) || f64_is_nan_bits(c64_bits(b)) ==> f64_is_nan_bits(
            c64_bits(r),
        ),
{
    num_complex::Complex64::new(a.re * b.re, Default::default())
}

/// Relies on double-precision division: correctly rounded, so exact up to a
/// NaN result's payload bits; a NaN operand gives a NaN result.
#[verifier::external_body]
pub fn c64_div(a: num_complex::Complex64, b: num_complex::Complex64) -> (r: num_complex::Complex64)
    ensures
        agrees64(c64_bits(r), div64_bits(c64_bits(a), c64_bits(b))),
        f64_is_nan_bits(c64_bits(a)) || f64_is_nan_bits(c64_bits(b)) ==> f64_is_nan_bits(
            c64_bits(r),
        ),
{
    num_complex::Complex64::new(a.re / b.re, Default::default())
}

/// Relies on `f64::powf`.  Its precision is documented as platform-dependent,
/// so nothing is promised of the result: callers state what holds whatever
/// came back.
#[verifier::external_body]
pub fn c64_powf(base: num_complex::Complex64, exponent: num_complex::Complex64) -> (r: num_complex::Complex64)
{
    num_complex::Complex64::new(base.re.powf(exponent.re), Default::default())
}

/// Relies on `f64::clamp`: the result is the value itself, the lower bound,
/// or the upper bound.  The bounds required below are `0.0` and `1.0`, an
/// ordered pair of non-NaN values, so the call cannot panic.
#[verifier::external_body]
pub fn c64_clamp(x: num_complex::Complex64, lo: num_complex::Complex64, hi: num_complex::Complex64) -> (r: num_complex::Complex64)
    requires
        c64_bits(lo) == 0,
        c64_bits(hi) == F64_ONE_BITS,
    ensures
        c64_bits(r) == c64_bits(x) || c64_bits(r) == c64_bits(lo) || c64_bits(r) == c64_bits(hi),
{
    num_complex::Complex64::new(x.re.clamp(lo.re, hi.re), Default::default())
}

/// Relies on the `f64` to `f32` cast: rounds to nearest, deterministically
/// for every value except a NaN, whose narrowed payload bits are unspecified;
/// `1.0` is representable and casts to `1.0` exactly.
#[verifier::external_body]
pub fn c64_to_c32(c: num_complex::Complex64) -> (r: num_complex::Complex32)
    ensures
        !f64_is_nan_bits(c64_bits(c)) ==> c32_bits(r) == shorten_bits(c64_bits(c)),
        f64_is_nan_bits(c64_bits(c)) ==> f32_is_nan_bits(c32_bits(r)),
        c64_bits(c) == F64_ONE_BITS ==> c32_bits(r) == F32_ONE_BITS,
{
    num_complex::Complex32::new(c.re as _, Default::default())
}

/// Relies on the `usize` to `f32` cast, which rounds to nearest; small
/// integers such as 0, 1 and 4 convert exactly.
#[verifier::external_body]
pub fn usize_to_c32(n: usize) -> (r: num_complex::Complex32)
    ensures
        c32_bits(r) == f32_of_usize(n),
        n == 0 ==> c32_bits(r) == 0,
        n == 1 ==> c32_bits(r) == F32_ONE_BITS,
        n == 4 ==> c32_bits(r) == F32_FOUR_BITS,
{
    num_complex::Complex32::new(n as _, Default::default())
}

/// Relies on the `usize` to `f64` cast, which rounds to nearest; small
/// integers such as 0 and 1 convert exactly.
#[verifier::external_body]
pub fn usize_to_c64(n: usize) -> (r: num_complex::Complex64)
    ensures
        c64_bits(r) == f64_of_usize(n),
        n == 0 ==> c64_bits(r) == 0,
        n == 1 ==> c64_bits(r) == F64_ONE_BITS,
{
    num_complex::Complex64::new(n as _, Default::default())
}

/// A double-precision value together with its bit pattern, so that verified
/// code can compare and store it while the trusted wrappers compute with it.
#[derive(Clone, Copy)]
pub struct Scalar64 {
    pub bits: u64,
    pub value: num_complex::Complex64,
}

impl Scalar64 {
    /// The bit pattern matches the carried value.
    pub open spec fn wf(self) -> bool {
        self.bits == c64_bits(self.value)
    }

    pub fn new(value: num_complex::Complex64) -> (r: Scalar64)
        ensures
            r.wf(),
            r.value == value,
            r.bits == c64_bits(value),
    {
        Scalar64 { bits: c64_to_bits(value), value }
    }
}

/// A single-precision value together with its bit pattern.
#[derive(Clone, Copy)]
pub struct Scalar32 {
    pub bits: u32,
    pub value: num_complex::Complex32,
}

impl Scalar32 {
    /// The bit pattern matches the carried value.
    pub open spec fn wf(self) -> bool {
        self.bits == c32_bits(self.value)
    }

    pub fn new(value: num_complex::Complex32) -> (r: Scalar32)
        ensures
            r.wf(),
            r.value == value,
            r.bits == c32_bits(value),
    {
        Scalar32 { bits: c32_to_bits(value), value }
    }

    /// The single-precision value `1.0`, with its bit pattern.
    pub fn one() -> (r: Scalar32)
        ensures
            r.wf(),
            r.bits == F32_ONE_BITS,
    {
        let value = usize_to_c32(1);
        Scalar32 { bits: F32_ONE_BITS, value }
    }
}

} // verus!
