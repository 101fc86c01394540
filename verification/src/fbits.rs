use vstd::prelude::*;

verus! {

// IEEE 754 comparisons, written out over bit patterns and verified, so that
// the selection logic of the damping filter needs no trust: a float is NaN
// when its exponent field is all ones and its significand is not zero; zeros
// of either sign are equal; otherwise values of equal sign order like their
// bit patterns (reversed for negative sign) and a positive value exceeds a
// negative one.

/// The single-precision bit pattern is a NaN.
pub open spec fn f32_is_nan_bits(b: u32) -> bool {
    (b >> 23) & 0xFF == 0xFF && b & 0x7F_FFFF != 0
}

/// The single-precision bit pattern is a zero of either sign.
pub open spec fn f32_is_zero_bits(b: u32) -> bool {
    b & 0x7FFF_FFFF == 0
}

/// The IEEE `>` comparison of two single-precision values, over bit patterns.
pub open spec fn f32_gt_bits(a: u32, b: u32) -> bool {
    if f32_is_nan_bits(a) || f32_is_nan_bits(b) {
        false
    } else if f32_is_zero_bits(a) && f32_is_zero_bits(b) {
        false
    } else if (a >> 31) != (b >> 31) {
        a >> 31 == 0
    } else if a >> 31 == 0 {
        a > b
    } else {
        a < b
    }
}

/// The double-precision bit pattern is a NaN.
pub open spec fn f64_is_nan_bits(b: u64) -> bool {
    (b >> 52) & 0x7FF == 0x7FF && b & 0xF_FFFF_FFFF_FFFF != 0
}

/// The IEEE `x > 0.0` test for a double-precision value, over bit patterns:
/// true of every positive value including infinity, false of zeros of either
/// sign, of negative values, and of NaN.
pub open spec fn f64_positive_bits(b: u64) -> bool {
    b >> 63 == 0 && b != 0 && !f64_is_nan_bits(b)
}

/// How the bit pattern of a computed float relates to a named result: equal
/// bit for bit where the named result is not a NaN, and some NaN where it is.
/// IEEE 754 fixes which results are NaN, but not a NaN's payload bits, so a
/// NaN's exact pattern cannot be promised.
pub open spec fn agrees32(actual: u32, named: u32) -> bool {
    if f32_is_nan_bits(named) {
        f32_is_nan_bits(actual)
    } else {
        actual == named
    }
}

/// `agrees32` in double precision.
pub open spec fn agrees64(actual: u64, named: u64) -> bool {
    if f64_is_nan_bits(named) {
        f64_is_nan_bits(actual)
    } else {
        actual == named
    }
}

/// The bit pattern of `1.0` denotes a positive value.
pub proof fn lemma_one_bits_positive()
    ensures
        f64_positive_bits(crate::fops::F64_ONE_BITS),
{
    assert(0x3FF0_0000_0000_0000u64 >> 63 == 0) by (bit_vector);
    assert((0x3FF0_0000_0000_0000u64 >> 52) & 0x7FF != 0x7FF) by (bit_vector);
}

/// IEEE `>` on single-precision bit patterns.
pub fn f32_gt(a: u32, b: u32) -> (r: bool)
    ensures
        r == f32_gt_bits(a, b),
{
    let a_nan = (a >> 23) & 0xFF == 0xFF && a & 0x7F_FFFF != 0;
    let b_nan = (b >> 23) & 0xFF == 0xFF && b & 0x7F_FFFF != 0;
    if a_nan || b_nan {
        false
    } else if a & 0x7FFF_FFFF == 0 && b & 0x7FFF_FFFF == 0 {
        false
    } else if (a >> 31) != (b >> 31) {
        a >> 31 == 0
    } else if a >> 31 == 0 {
        a > b
    } else {
        a < b
    }
}

/// IEEE `x > 0.0` on a double-precision bit pattern.
pub fn f64_positive(b: u64) -> (r: bool)
    ensures
        r == f64_positive_bits(b),
{
    b >> 63 == 0 && b != 0 && !((b >> 52) & 0x7FF == 0x7FF && b & 0xF_FFFF_FFFF_FFFF != 0)
}

} // verus!
