//! Interval model: the supported bucket granularities and, for each, the
//! truncation rule (round an instant down to the start of its bucket), the
//! bucket width, and the offset unit used to shift a window boundary by one
//! bucket.
//!
//! Instants are nanoseconds since the Unix epoch. Minute, hour and day
//! buckets are anchored at the epoch itself; week buckets are anchored at
//! the start of the week containing the epoch (Sunday 1969-12-28), so every
//! boundary is a whole number of steps away from its granularity's anchor.

use vstd::prelude::*;
use vstd::arithmetic::div_mod::{
    lemma_fundamental_div_mod, lemma_fundamental_div_mod_converse, lemma_mod_bound,
    lemma_div_is_ordered, lemma_div_pos_is_pos,
};

verus! {

/// Nanoseconds in one second.
pub const NANOS_PER_SECOND: i64 = 1_000_000_000;

/// Nanoseconds in one minute.
pub const MINUTE_NANOS: i64 = 60_000_000_000;

/// Nanoseconds in one hour.
pub const HOUR_NANOS: i64 = 3_600_000_000_000;

/// Nanoseconds in one day.
pub const DAY_NANOS: i64 = 86_400_000_000_000;

/// Nanoseconds in one week.
pub const WEEK_NANOS: i64 = 604_800_000_000_000;

/// Start of the week containing the Unix epoch: Sunday 1969-12-28,
/// four days before the epoch.
pub const WEEK_ANCHOR_NANOS: i64 = -345_600_000_000_000;

/// Largest instant this library handles: `u32::MAX` whole seconds after the
/// epoch, so every bucket time fits a `u32` seconds field.
pub const MAX_INSTANT_NANOS: i64 = 4_294_967_295_000_000_000;

/// A bucket granularity for grouping metric points in time.
#[derive(Clone, Copy, PartialEq, Eq, Structural, Debug)]
pub enum GroupByInterval {
    Minute,
    Hour,
    Day,
    Week,
}

impl GroupByInterval {
    /// Width of one bucket, in nanoseconds.
    pub open spec fn step_nanos_spec(self) -> int {
        match self {
            GroupByInterval::Minute => MINUTE_NANOS as int,
            GroupByInterval::Hour => HOUR_NANOS as int,
            GroupByInterval::Day => DAY_NANOS as int,
            GroupByInterval::Week => WEEK_NANOS as int,
        }
    }

    /// The instant every bucket boundary of this granularity is measured
    /// from: the epoch, except for weeks, which are anchored at the start
    /// of the week containing the epoch.
    pub open spec fn anchor_nanos_spec(self) -> int {
        match self {
            GroupByInterval::Week => WEEK_ANCHOR_NANOS as int,
            _ => 0,
        }
    }

    /// Round `t` down to the start of the bucket containing it.
    pub open spec fn truncate_spec(self, t: int) -> int {
        self.anchor_nanos_spec() + ((t - self.anchor_nanos_spec()) / self.step_nanos_spec())
            * self.step_nanos_spec()
    }

    /// `t` is a bucket boundary of this granularity.
    pub open spec fn aligned(self, t: int) -> bool {
        t == self.truncate_spec(t)
    }

    /// Width of one bucket, in nanoseconds.
    pub fn step_nanos(&self) -> (r: i64)
        ensures
            r as int == self.step_nanos_spec(),
    {
        match self {
            GroupByInterval::Minute => MINUTE_NANOS,
            GroupByInterval::Hour => HOUR_NANOS,
            GroupByInterval::Day => DAY_NANOS,
            GroupByInterval::Week => WEEK_NANOS,
        }
    }

    /// The offset used when shifting a window boundary by exactly one
    /// bucket: one step of this granularity.
    pub fn offset_unit_nanos(&self) -> (r: i64)
        ensures
            r as int == self.step_nanos_spec(),
    {
        self.step_nanos()
    }

    /// Round `t` down to the start of the bucket containing it.
    pub fn truncate(&self, t: i64) -> (r: i64)
        requires
            0 <= t <= MAX_INSTANT_NANOS,
        ensures
            r as int == self.truncate_spec(t as int),
    {
        let anchor: i64 = match self {
            GroupByInterval::Week => WEEK_ANCHOR_NANOS,
            _ => 0,
        };
        let step: i64 = self.step_nanos();
        let shifted: i64 = t - anchor;
        let q: i64 = ((shifted as u64) / (step as u64)) as i64;
        proof {
            let x = shifted as int;
            let s = step as int;
            lemma_fundamental_div_mod(x, s);
            lemma_mod_bound(x, s);
            lemma_div_pos_is_pos(x, s);
            vstd::arithmetic::div_mod::lemma_div_nonincreasing(x, s);
            assert(q as int == x / s);
            assert((q as int) * (s as int) == x - x % s) by (nonlinear_arith)
                requires
                    q as int == x / s,
                    x == s * (x / s) + x % s,
            ;
        }
        q * step + anchor
    }
}

/// Truncation rounds down by less than one bucket width, and lands on a
/// bucket boundary.
pub proof fn lemma_truncate_bounds(iv: GroupByInterval, t: int)
    ensures
        iv.truncate_spec(t) <= t,
        t < iv.truncate_spec(t) + iv.step_nanos_spec(),
        iv.aligned(iv.truncate_spec(t)),
{
    let a = iv.anchor_nanos_spec();
    let s = iv.step_nanos_spec();
    let q = (t - a) / s;
    lemma_fundamental_div_mod(t - a, s);
    lemma_mod_bound(t - a, s);
    lemma_fundamental_div_mod_converse(q * s, s, q, 0);
}

/// Truncation is monotone.
pub proof fn lemma_truncate_monotone(iv: GroupByInterval, t1: int, t2: int)
    requires
        t1 <= t2,
    ensures
        iv.truncate_spec(t1) <= iv.truncate_spec(t2),
{
    let a = iv.anchor_nanos_spec();
    let s = iv.step_nanos_spec();
    lemma_div_is_ordered(t1 - a, t2 - a, s);
    vstd::arithmetic::mul::lemma_mul_inequality((t1 - a) / s, (t2 - a) / s, s);
}

/// Truncating an instant shifted by one bucket width shifts the boundary by
/// the same width.
pub proof fn lemma_truncate_plus_step(iv: GroupByInterval, t: int)
    ensures
        iv.truncate_spec(t + iv.step_nanos_spec()) == iv.truncate_spec(t) + iv.step_nanos_spec(),
{
    let a = iv.anchor_nanos_spec();
    let s = iv.step_nanos_spec();
    let q = (t - a) / s;
    let r = (t - a) % s;
    lemma_fundamental_div_mod(t - a, s);
    lemma_mod_bound(t - a, s);
    assert((q + 1) * s == q * s + s) by (nonlinear_arith);
    lemma_fundamental_div_mod_converse(t + s - a, s, q + 1, r);
}

/// Every instant a whole number of steps from a bucket boundary is itself a
/// boundary.
pub proof fn lemma_aligned_plus_steps(iv: GroupByInterval, t: int, k: int)
    requires
        iv.aligned(t),
    ensures
        iv.aligned(t + k * iv.step_nanos_spec()),
{
    let a = iv.anchor_nanos_spec();
    let s = iv.step_nanos_spec();
    let q = (t - a) / s;
    lemma_fundamental_div_mod(t - a, s);
    lemma_mod_bound(t - a, s);
    assert(t + k * s - a == (q + k) * s) by (nonlinear_arith)
        requires
            t - a == q * s,
    ;
    lemma_fundamental_div_mod_converse(t + k * s - a, s, q + k, 0);
}

/// A bucket boundary is a whole number of seconds: dividing by one second
/// loses nothing.
pub proof fn lemma_aligned_whole_seconds(iv: GroupByInterval, t: int)
    requires
        iv.aligned(t),
    ensures
        (t / (NANOS_PER_SECOND as int)) * (NANOS_PER_SECOND as int) == t,
{
    let a = iv.anchor_nanos_spec();
    let s = iv.step_nanos_spec();
    let g = NANOS_PER_SECOND as int;
    let q = (t - a) / s;
    lemma_fundamental_div_mod(t - a, s);
    lemma_mod_bound(t - a, s);
    let a1 = a / g;
    let s1 = s / g;
    assert(a == a1 * g && s == s1 * g);
    assert(t == (a1 + q * s1) * g) by (nonlinear_arith)
        requires
            t == a + q * s,
            a == a1 * g,
            s == s1 * g,
    ;
    lemma_fundamental_div_mod_converse(t, g, a1 + q * s1, 0);
}

} // verus!
