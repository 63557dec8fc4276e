//! Extended-precision floating point, provided by the `astro-float` crate.
//!
//! The precision-bound estimation works on `astro_float::BigFloat` values.
//! Nothing is assumed about the numerical results of these operations: the
//! callers treat every outcome as possible, clamp what they extract, and fall
//! back to a safe minimum when the pipeline misbehaves.  All operations round
//! to the nearest even value.

use vstd::prelude::*;

verus! {

#[verifier::external_type_specification]
#[verifier::external_body]
pub struct ExBigFloat(astro_float::BigFloat);

#[verifier::external_type_specification]
#[verifier::external_body]
pub struct ExConsts(astro_float::Consts);

/// Relies on `astro_float::Consts::new`: a fresh cache of the library's own
/// constants; it fails only when memory cannot be allocated.
#[verifier::external_body]
pub(crate) fn consts_new() -> astro_float::Consts {
    astro_float::Consts::new().unwrap()
}

/// Relies on `astro_float::BigFloat::from_word`.
#[verifier::external_body]
pub(crate) fn f_from_u64(v: u64, p: usize) -> astro_float::BigFloat {
    astro_float::BigFloat::from_word(v, p)
}

/// Relies on `astro_float::BigFloat::powi`.
#[verifier::external_body]
pub(crate) fn f_powi(x: &astro_float::BigFloat, n: usize, p: usize) -> astro_float::BigFloat {
    x.powi(n, p, astro_float::RoundingMode::ToEven)
}

/// Relies on `astro_float::BigFloat::reciprocal`.
#[verifier::external_body]
pub(crate) fn f_recip(x: &astro_float::BigFloat, p: usize) -> astro_float::BigFloat {
    x.reciprocal(p, astro_float::RoundingMode::ToEven)
}

/// Relies on `astro_float::BigFloat::neg`.
#[verifier::external_body]
pub(crate) fn f_neg(x: &astro_float::BigFloat) -> astro_float::BigFloat {
    x.neg()
}

/// Relies on `astro_float::BigFloat::ln`.
#[verifier::external_body]
pub(crate) fn f_ln(x: &astro_float::BigFloat, p: usize, cc: &mut astro_float::Consts) -> astro_float::BigFloat {
    x.ln(p, astro_float::RoundingMode::ToEven, cc)
}

/// Relies on `astro_float::BigFloat::exp`.
#[verifier::external_body]
pub(crate) fn f_exp(x: &astro_float::BigFloat, p: usize, cc: &mut astro_float::Consts) -> astro_float::BigFloat {
    x.exp(p, astro_float::RoundingMode::ToEven, cc)
}

/// Relies on `astro_float::BigFloat::add`.
#[verifier::external_body]
pub(crate) fn f_add(a: &astro_float::BigFloat, b: &astro_float::BigFloat, p: usize) -> astro_float::BigFloat {
    a.add(b, p, astro_float::RoundingMode::ToEven)
}

/// Relies on `astro_float::BigFloat::sub`.
#[verifier::external_body]
pub(crate) fn f_sub(a: &astro_float::BigFloat, b: &astro_float::BigFloat, p: usize) -> astro_float::BigFloat {
    a.sub(b, p, astro_float::RoundingMode::ToEven)
}

/// Relies on `astro_float::BigFloat::mul`.
#[verifier::external_body]
pub(crate) fn f_mul(a: &astro_float::BigFloat, b: &astro_float::BigFloat, p: usize) -> astro_float::BigFloat {
    a.mul(b, p, astro_float::RoundingMode::ToEven)
}

/// Relies on `astro_float::BigFloat::div`.
#[verifier::external_body]
pub(crate) fn f_div(a: &astro_float::BigFloat, b: &astro_float::BigFloat, p: usize) -> astro_float::BigFloat {
    a.div(b, p, astro_float::RoundingMode::ToEven)
}

/// Relies on `astro_float::BigFloat::abs`.
#[verifier::external_body]
pub(crate) fn f_abs(x: &astro_float::BigFloat) -> astro_float::BigFloat {
    x.abs()
}

/// Relies on `astro_float::BigFloat::ceil`.
#[verifier::external_body]
pub(crate) fn f_ceil(x: &astro_float::BigFloat) -> astro_float::BigFloat {
    x.ceil()
}

/// Relies on `astro_float::BigFloat::cmp`: negative, zero or positive as `a`
/// compares to `b`, and no answer when one side is a NaN.
#[verifier::external_body]
pub(crate) fn f_cmp(a: &astro_float::BigFloat, b: &astro_float::BigFloat) -> Option<i128> {
    match a.cmp(b) {
        Some(v) => Some(v as i128),
        None => None,
    }
}

/// Relies on `astro_float::BigFloat::is_nan`.
#[verifier::external_body]
pub(crate) fn f_is_nan(x: &astro_float::BigFloat) -> bool {
    x.is_nan()
}

/// Relies on `astro_float::BigFloat::is_inf`.
#[verifier::external_body]
pub(crate) fn f_is_inf(x: &astro_float::BigFloat) -> bool {
    x.is_inf()
}

/// Relies on `astro_float::BigFloat::is_zero`.
#[verifier::external_body]
pub(crate) fn f_is_zero(x: &astro_float::BigFloat) -> bool {
    x.is_zero()
}

/// Relies on `astro_float::BigFloat::is_positive`.
#[verifier::external_body]
pub(crate) fn f_is_positive(x: &astro_float::BigFloat) -> bool {
    x.is_positive()
}

/// `a <= b` according to the comparator; false when they do not compare.
pub(crate) fn f_le(a: &astro_float::BigFloat, b: &astro_float::BigFloat) -> bool {
    match f_cmp(a, b) {
        Some(v) => v <= 0,
        None => false,
    }
}

/// `a > b` according to the comparator; false when they do not compare.
pub(crate) fn f_gt(a: &astro_float::BigFloat, b: &astro_float::BigFloat) -> bool {
    match f_cmp(a, b) {
        Some(v) => v > 0,
        None => false,
    }
}

/// `a < b` according to the comparator; false when they do not compare.
pub(crate) fn f_lt(a: &astro_float::BigFloat, b: &astro_float::BigFloat) -> bool {
    match f_cmp(a, b) {
        Some(v) => v < 0,
        None => false,
    }
}

} // verus!
