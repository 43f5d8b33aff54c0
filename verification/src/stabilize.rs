//! Numeric stabilizer: suppresses residue below a caller-chosen epsilon.
//!
//! Metric values for the fractional families (latency in seconds, cost in
//! dollars) are carried as fixed-point integers scaled by `VALUE_SCALE`
//! units per whole unit, so one fixed-point unit is the smallest residue
//! the representation can hold. `stabilize` zeroes any value whose
//! magnitude falls below the given threshold and passes every other value
//! through unchanged.

use vstd::prelude::*;

verus! {

/// Fixed-point units per whole natural unit (seconds, dollars).
pub const VALUE_SCALE: i64 = 1_000_000_000;

/// Threshold under which a fixed-point metric value counts as residue:
/// one fixed-point unit, i.e. 1e-9 of the natural unit.
pub const STABILIZE_EPSILON: i64 = 1;

/// What `stabilize` returns: `value`, or zero when its magnitude is below
/// `epsilon`.
pub open spec fn stabilize_spec(value: int, epsilon: int) -> int {
    if -epsilon < value && value < epsilon {
        0
    } else {
        value
    }
}

/// Zero out a metric value whose magnitude falls below `epsilon`; return
/// every other value unchanged. With `epsilon == 0` no value is changed.
pub fn stabilize(value: i64, epsilon: i64) -> (r: i64)
    requires
        epsilon >= 0,
    ensures
        r as int == stabilize_spec(value as int, epsilon as int),
        -epsilon < value < epsilon ==> r == 0,
        value <= -epsilon || value >= epsilon ==> r == value,
{
    if -epsilon < value && value < epsilon {
        0
    } else {
        value
    }
}

} // verus!
