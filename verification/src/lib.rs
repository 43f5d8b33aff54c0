//! Time-bucketed aggregate metrics over traced spans.
//!
//! Spans (units of work inside a trace) carry start/end instants in
//! nanoseconds since the Unix epoch, token counts and costs. The library
//! derives per-trace facts (earliest start, latest end, summed totals),
//! groups traces into fixed-width time buckets at a chosen granularity, and
//! builds complete, gap-free metric series over a relative or absolute
//! window, with zero values where no data exists.

pub mod aggregation;
pub mod bounds;
pub mod interval;
pub mod queries;
pub mod series;
pub mod span;
pub mod stabilize;
pub mod trace;
