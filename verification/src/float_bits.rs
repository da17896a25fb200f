//! IEEE-754 double-precision values as their 64-bit patterns.
//!
//! The operand stack holds floats as raw bits, so the comparisons and the
//! sign-bit operations the engine needs are plain integer logic on those
//! bits: NaN detection, magnitude ordering of same-sign values, and the
//! sign-bit clear that `abs` is. Everything here is exact by the IEEE-754
//! encoding; no floating-point arithmetic is involved.

use vstd::prelude::*;

verus! {

/// The sign bit of a double's bit pattern.
pub const F64_SIGN_MASK: u64 = 0x8000_0000_0000_0000;

/// Everything but the sign bit: the magnitude ordering key.
pub const F64_MAG_MASK: u64 = 0x7fff_ffff_ffff_ffff;

/// The exponent field.
pub const F64_EXP_MASK: u64 = 0x7ff0_0000_0000_0000;

/// The fraction field.
pub const F64_FRAC_MASK: u64 = 0x000f_ffff_ffff_ffff;

/// A bit pattern encodes NaN when the exponent is all ones and the
/// fraction is not zero.
pub open spec fn spec_f64_is_nan(b: u64) -> bool {
    b & F64_EXP_MASK == F64_EXP_MASK && b & F64_FRAC_MASK != 0
}

/// Both zeroes (+0.0 and -0.0) have an all-zero magnitude.
pub open spec fn spec_f64_is_zero(b: u64) -> bool {
    b & F64_MAG_MASK == 0
}

pub open spec fn spec_f64_is_neg(b: u64) -> bool {
    b & F64_SIGN_MASK != 0
}

/// IEEE equality on bit patterns: false for NaN, and the two zeroes are
/// equal; otherwise bit equality.
pub open spec fn spec_f64_eq(a: u64, b: u64) -> bool {
    &&& !spec_f64_is_nan(a)
    &&& !spec_f64_is_nan(b)
    &&& (a == b || (spec_f64_is_zero(a) && spec_f64_is_zero(b)))
}

/// IEEE less-than on bit patterns: false when either side is NaN; for
/// equal signs the magnitudes order the values (reversed for negatives).
pub open spec fn spec_f64_lt(a: u64, b: u64) -> bool {
    &&& !spec_f64_is_nan(a)
    &&& !spec_f64_is_nan(b)
    &&& !(spec_f64_is_zero(a) && spec_f64_is_zero(b))
    &&& if spec_f64_is_neg(a) != spec_f64_is_neg(b) {
        spec_f64_is_neg(a)
    } else if spec_f64_is_neg(a) {
        a & F64_MAG_MASK > b & F64_MAG_MASK
    } else {
        a & F64_MAG_MASK < b & F64_MAG_MASK
    }
}

pub open spec fn spec_f64_le(a: u64, b: u64) -> bool {
    spec_f64_lt(a, b) || spec_f64_eq(a, b)
}

pub open spec fn spec_f64_gt(a: u64, b: u64) -> bool {
    spec_f64_lt(b, a)
}

pub open spec fn spec_f64_ge(a: u64, b: u64) -> bool {
    spec_f64_gt(a, b) || spec_f64_eq(a, b)
}

/// `abs` clears the sign bit, NaN included.
pub open spec fn spec_f64_abs(b: u64) -> u64 {
    b & F64_MAG_MASK
}

pub fn f64_is_nan_bits(b: u64) -> (r: bool)
    ensures
        r == spec_f64_is_nan(b),
{
    b & F64_EXP_MASK == F64_EXP_MASK && b & F64_FRAC_MASK != 0
}

pub fn f64_eq_bits(a: u64, b: u64) -> (r: bool)
    ensures
        r == spec_f64_eq(a, b),
{
    !f64_is_nan_bits(a) && !f64_is_nan_bits(b) && (a == b || (a & F64_MAG_MASK == 0 && b
        & F64_MAG_MASK == 0))
}

pub fn f64_lt_bits(a: u64, b: u64) -> (r: bool)
    ensures
        r == spec_f64_lt(a, b),
{
    if f64_is_nan_bits(a) || f64_is_nan_bits(b) {
        return false;
    }
    let ma = a & F64_MAG_MASK;
    let mb = b & F64_MAG_MASK;
    if ma == 0 && mb == 0 {
        return false;
    }
    let na = a & F64_SIGN_MASK != 0;
    let nb = b & F64_SIGN_MASK != 0;
    if na != nb {
        na
    } else if na {
        ma > mb
    } else {
        ma < mb
    }
}

pub fn f64_le_bits(a: u64, b: u64) -> (r: bool)
    ensures
        r == spec_f64_le(a, b),
{
    f64_lt_bits(a, b) || f64_eq_bits(a, b)
}

pub fn f64_gt_bits(a: u64, b: u64) -> (r: bool)
    ensures
        r == spec_f64_gt(a, b),
{
    f64_lt_bits(b, a)
}

pub fn f64_ge_bits(a: u64, b: u64) -> (r: bool)
    ensures
        r == spec_f64_ge(a, b),
{
    f64_gt_bits(a, b) || f64_eq_bits(a, b)
}

pub fn f64_abs_bits(b: u64) -> (r: u64)
    ensures
        r == spec_f64_abs(b),
{
    b & F64_MAG_MASK
}

} // verus!
