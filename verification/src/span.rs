//! Span and metric-point data model.
//!
//! A span is one recorded unit of work inside a trace: it carries the
//! owning project and trace identifiers (128-bit values), start and end
//! instants in nanoseconds since the Unix epoch, its total token count and
//! its total cost. Costs are fixed-point integers in units of 1e-9 dollars,
//! the same scale the stabilizer works at.

use vstd::prelude::*;
use crate::interval::MAX_INSTANT_NANOS;

verus! {

/// One recorded unit of work, belonging to a trace within a project.
#[derive(Clone, Copy, PartialEq, Eq, Structural, Debug)]
pub struct Span {
    /// Owning project identifier.
    pub project_id: u128,
    /// Owning trace identifier.
    pub trace_id: u128,
    /// Start instant, nanoseconds since the Unix epoch.
    pub start_time: i64,
    /// End instant, nanoseconds since the Unix epoch.
    pub end_time: i64,
    /// Total tokens consumed by this span.
    pub total_tokens: i64,
    /// Total cost of this span, in units of 1e-9 dollars.
    pub total_cost_units: i64,
}

impl Span {
    /// A span is well formed when its instants are ordered and in range and
    /// its totals are not negative.
    pub open spec fn valid(self) -> bool {
        &&& 0 <= self.start_time
        &&& self.start_time <= self.end_time
        &&& self.end_time <= MAX_INSTANT_NANOS
        &&& 0 <= self.total_tokens
        &&& 0 <= self.total_cost_units
    }
}

/// Every span of the sequence is well formed.
pub open spec fn spans_valid(s: Seq<Span>) -> bool {
    forall|i: int| 0 <= i < s.len() ==> (#[trigger] s[i]).valid()
}

/// One point of a metric series: a bucket time in whole seconds since the
/// Unix epoch, and the aggregated value for that bucket.
#[derive(Clone, Copy, PartialEq, Eq, Structural, Debug)]
pub struct IntMetricTimeValue {
    /// Bucket start, whole seconds since the Unix epoch.
    pub time: u32,
    /// Aggregated value for the bucket; zero where no data exists.
    pub value: i64,
}

/// Earliest and latest recorded span start instants of a project.
#[derive(Clone, Copy, PartialEq, Eq, Structural, Debug)]
pub struct TimeBounds {
    /// Earliest span start, nanoseconds since the Unix epoch.
    pub min_time: i64,
    /// Latest span start, nanoseconds since the Unix epoch.
    pub max_time: i64,
}

/// Why a metrics request fails.
#[derive(Clone, Copy, PartialEq, Eq, Structural, Debug)]
pub enum MetricsError {
    /// The caller handed a malformed window: an inverted absolute range or
    /// a negative relative duration.
    InvalidWindow,
    /// The backing store could not be reached or its response could not be
    /// decoded; raised by the surrounding I/O layer, never by this library.
    BackingStoreUnavailable,
}

} // verus!
