//! Scalar minimum and maximum with an explicit NaN rule.
//!
//! When either operand is NaN the comparison is unordered and the right
//! operand is returned; otherwise the comparison is the numeric order of
//! [`crate::scalar`].  Bounding-box merging builds on these.

use crate::scalar::{num_lt, spec_is_nan, Real64};
use vstd::prelude::*;

verus! {

/// The value [`max`] returns.
pub open spec fn spec_max(left: Real64, right: Real64) -> Real64 {
    if spec_is_nan(left) || spec_is_nan(right) {
        right
    } else if num_lt(right, left) {
        left
    } else {
        right
    }
}

/// The value [`min`] returns.
pub open spec fn spec_min(left: Real64, right: Real64) -> Real64 {
    if spec_is_nan(left) || spec_is_nan(right) {
        right
    } else if num_lt(left, right) {
        left
    } else {
        right
    }
}

/// The numerically larger scalar; the right operand when the two are equal
/// or when either is NaN.
pub fn max(left: Real64, right: Real64) -> (r: Real64)
    ensures
        r == spec_max(left, right),
{
    if left.is_nan() || right.is_nan() {
        right
    } else if right.num_lt(&left) {
        left
    } else {
        right
    }
}

/// The numerically smaller scalar; the right operand when the two are equal
/// or when either is NaN.
pub fn min(left: Real64, right: Real64) -> (r: Real64)
    ensures
        r == spec_min(left, right),
{
    if left.is_nan() || right.is_nan() {
        right
    } else if left.num_lt(&right) {
        left
    } else {
        right
    }
}

} // verus!
