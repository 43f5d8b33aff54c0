//! The metric query entry points: for each metric family (trace count,
//! latency, token count, cost) one relative-window and one absolute-window
//! query, each producing the gap-filled series of the bucketed series
//! builder over the project's spans.
//!
//! A relative window takes the duration in whole past hours and the single
//! instant `now_nanos` that anchors it; the caller fixes that instant once,
//! at the start of request handling, so the bucket range and the window
//! filter cannot drift apart. An absolute window takes explicit start and
//! end instants. A malformed window — negative duration, or start after
//! end — is rejected with `InvalidWindow` before anything is computed.
//!
//! Latency values are in nanoseconds, which reads as seconds at the
//! fixed-point scale of `VALUE_SCALE`; cost values are in units of 1e-9
//! dollars. Those two families pass through the stabilizer at
//! `STABILIZE_EPSILON`; the integer families (counts, tokens) are exempt
//! and their points carry the exact aggregate.

use vstd::prelude::*;
use crate::aggregation::{Aggregation, seq_sum};
use crate::interval::{
    GroupByInterval, HOUR_NANOS, MAX_INSTANT_NANOS, lemma_truncate_bounds,
    lemma_truncate_monotone, lemma_truncate_plus_step,
};
use crate::series::{
    MAX_SPANS, MetricScalar, absolute_range_end, absolute_range_start, bucket_scalars,
    build_series, lemma_unit_bucket_sum_le, relative_range_end,
    relative_range_start, series_matches,
};
use crate::span::{IntMetricTimeValue, MetricsError, Span, spans_valid};
use crate::stabilize::STABILIZE_EPSILON;
use crate::trace::{distinct_trace_ids, lemma_distinct_trace_ids_len, trace_cost, trace_tokens};

verus! {

/// The spans are well formed, few enough to process, and no trace's summed
/// totals overflow a machine integer.
pub open spec fn spans_ok(s: Seq<Span>, project_id: u128) -> bool {
    &&& spans_valid(s)
    &&& s.len() <= MAX_SPANS
    &&& forall|tid: u128| #[trigger] trace_tokens(s, project_id, tid) <= i64::MAX
    &&& forall|tid: u128| #[trigger] trace_cost(s, project_id, tid) <= i64::MAX
}

/// No bucket's summed scalars overflow a machine integer, for the given
/// family's scalar.
pub open spec fn bucket_sums_ok(s: Seq<Span>, project_id: u128, iv: GroupByInterval, fam: MetricScalar) -> bool {
    forall|b: int|
        #[trigger] seq_sum(
            bucket_scalars(distinct_trace_ids(s, project_id), s, project_id, iv, fam, b),
        ) <= i64::MAX
}

/// A well-formed relative window: an anchor within the representable range
/// that a non-negative duration cannot reach below the epoch.
pub open spec fn relative_window_ok(now_nanos: int, past_hours: int) -> bool {
    &&& 0 <= now_nanos <= MAX_INSTANT_NANOS
    &&& past_hours >= 0 ==> past_hours * (HOUR_NANOS as int) <= now_nanos
}

/// An absolute window within the representable range whose first bucket
/// boundary does not precede the week anchor's reach below zero.
pub open spec fn absolute_window_ok(iv: GroupByInterval, start_nanos: int, end_nanos: int) -> bool {
    &&& 0 <= start_nanos
    &&& end_nanos <= MAX_INSTANT_NANOS
    &&& start_nanos <= end_nanos ==> iv.truncate_spec(start_nanos) >= 0
}

/// The relative series of `fam` under `agg`: every bucket boundary from one
/// step past `truncate(now - past)` up to one step past `truncate(now)`,
/// admitting traces whose bucket is no earlier than `now - past`.
pub open spec fn relative_series_matches(
    v: Seq<IntMetricTimeValue>,
    s: Seq<Span>,
    project_id: u128,
    iv: GroupByInterval,
    fam: MetricScalar,
    agg: Aggregation,
    epsilon: int,
    now_nanos: int,
    past_hours: int,
) -> bool {
    series_matches(
        v,
        s,
        project_id,
        iv,
        fam,
        agg,
        epsilon,
        relative_range_start(iv, now_nanos, past_hours * (HOUR_NANOS as int)),
        relative_range_end(iv, now_nanos),
        now_nanos - past_hours * (HOUR_NANOS as int),
        i64::MAX as int,
    )
}

/// The absolute series of `fam` under `agg`: every bucket boundary from
/// `truncate(start)` up to `truncate(end)`, admitting traces whose bucket
/// lies within `[start, end]`.
pub open spec fn absolute_series_matches(
    v: Seq<IntMetricTimeValue>,
    s: Seq<Span>,
    project_id: u128,
    iv: GroupByInterval,
    fam: MetricScalar,
    agg: Aggregation,
    epsilon: int,
    start_nanos: int,
    end_nanos: int,
) -> bool {
    series_matches(
        v,
        s,
        project_id,
        iv,
        fam,
        agg,
        epsilon,
        absolute_range_start(iv, start_nanos),
        absolute_range_end(iv, end_nanos),
        start_nanos,
        end_nanos,
    )
}

/// Shared relative-window entry: validate the duration, compute the bucket
/// range anchored at `now_nanos`, and build the series.
fn relative_series(
    spans: &Vec<Span>,
    group_by_interval: GroupByInterval,
    project_id: u128,
    past_hours: i64,
    now_nanos: i64,
    fam: MetricScalar,
    agg: Aggregation,
    epsilon: i64,
) -> (r: Result<Vec<IntMetricTimeValue>, MetricsError>)
    requires
        spans_ok(spans@, project_id),
        bucket_sums_ok(spans@, project_id, group_by_interval, fam),
        agg.valid(),
        0 <= epsilon,
        relative_window_ok(now_nanos as int, past_hours as int),
    ensures
        past_hours < 0 <==> r matches Err(MetricsError::InvalidWindow),
        past_hours >= 0 ==> (r matches Ok(v) && relative_series_matches(
            v@,
            spans@,
            project_id,
            group_by_interval,
            fam,
            agg,
            epsilon as int,
            now_nanos as int,
            past_hours as int,
        )),
{
    if past_hours < 0 {
        return Err(MetricsError::InvalidWindow);
    }
    let past = past_hours * HOUR_NANOS;
    let window_lo = now_nanos - past;
    let step = group_by_interval.offset_unit_nanos();
    proof {
        // The range boundary `truncate(t) + step` is the boundary
        // `truncate(t + step)`: shifting by the offset unit before or after
        // truncating lands on the same bucket boundary.
        let st = group_by_interval.step_nanos_spec();
        lemma_truncate_bounds(group_by_interval, window_lo as int);
        lemma_truncate_bounds(group_by_interval, now_nanos as int);
        lemma_truncate_monotone(group_by_interval, window_lo as int, now_nanos as int);
        lemma_truncate_plus_step(group_by_interval, window_lo as int);
        lemma_truncate_bounds(group_by_interval, window_lo as int + st);
        lemma_truncate_plus_step(group_by_interval, now_nanos as int);
        lemma_truncate_bounds(group_by_interval, now_nanos as int + st);
    }
    let range_start = group_by_interval.truncate(window_lo) + step;
    let range_end = group_by_interval.truncate(now_nanos) + step;
    let out = build_series(
        spans,
        project_id,
        group_by_interval,
        fam,
        agg,
        epsilon,
        range_start,
        range_end,
        window_lo,
        i64::MAX,
    );
    Ok(out)
}

/// Shared absolute-window entry: validate the range, truncate both ends to
/// bucket boundaries, and build the series.
fn absolute_series(
    spans: &Vec<Span>,
    group_by_interval: GroupByInterval,
    project_id: u128,
    start_nanos: i64,
    end_nanos: i64,
    fam: MetricScalar,
    agg: Aggregation,
    epsilon: i64,
) -> (r: Result<Vec<IntMetricTimeValue>, MetricsError>)
    requires
        spans_ok(spans@, project_id),
        bucket_sums_ok(spans@, project_id, group_by_interval, fam),
        agg.valid(),
        0 <= epsilon,
        absolute_window_ok(group_by_interval, start_nanos as int, end_nanos as int),
    ensures
        start_nanos > end_nanos <==> r matches Err(MetricsError::InvalidWindow),
        start_nanos <= end_nanos ==> (r matches Ok(v) && absolute_series_matches(
            v@,
            spans@,
            project_id,
            group_by_interval,
            fam,
            agg,
            epsilon as int,
            start_nanos as int,
            end_nanos as int,
        )),
{
    if start_nanos > end_nanos {
        return Err(MetricsError::InvalidWindow);
    }
    proof {
        lemma_truncate_bounds(group_by_interval, start_nanos as int);
        lemma_truncate_bounds(group_by_interval, end_nanos as int);
        lemma_truncate_monotone(group_by_interval, start_nanos as int, end_nanos as int);
    }
    let range_start = group_by_interval.truncate(start_nanos);
    let range_end = group_by_interval.truncate(end_nanos);
    let out = build_series(
        spans,
        project_id,
        group_by_interval,
        fam,
        agg,
        epsilon,
        range_start,
        range_end,
        start_nanos,
        end_nanos,
    );
    Ok(out)
}

/// The sums of unit scalars never overflow, so the trace-count family needs
/// no bucket-sum bound from its caller.
proof fn lemma_unit_sums_ok(s: Seq<Span>, project_id: u128, iv: GroupByInterval)
    requires
        s.len() <= MAX_SPANS,
    ensures
        bucket_sums_ok(s, project_id, iv, MetricScalar::Unit),
{
    let tids = distinct_trace_ids(s, project_id);
    lemma_distinct_trace_ids_len(s, project_id);
    assert forall|b: int|
        #[trigger] seq_sum(
            bucket_scalars(tids, s, project_id, iv, MetricScalar::Unit, b),
        ) <= i64::MAX by {
        lemma_unit_bucket_sum_le(tids, s, project_id, iv, b);
    }
}

/// How many traces of the project started in each bucket of the last
/// `past_hours` hours before `now_nanos`.
pub fn get_total_trace_count_metrics_relative(
    spans: &Vec<Span>,
    group_by_interval: GroupByInterval,
    project_id: u128,
    past_hours: i64,
    now_nanos: i64,
) -> (r: Result<Vec<IntMetricTimeValue>, MetricsError>)
    requires
        spans_ok(spans@, project_id),
        relative_window_ok(now_nanos as int, past_hours as int),
    ensures
        past_hours < 0 <==> r matches Err(MetricsError::InvalidWindow),
        past_hours >= 0 ==> (r matches Ok(v) && relative_series_matches(
            v@,
            spans@,
            project_id,
            group_by_interval,
            MetricScalar::Unit,
            Aggregation::CountDistinct,
            0,
            now_nanos as int,
            past_hours as int,
        )),
{
    proof {
        lemma_unit_sums_ok(spans@, project_id, group_by_interval);
    }
    relative_series(
        spans,
        group_by_interval,
        project_id,
        past_hours,
        now_nanos,
        MetricScalar::Unit,
        Aggregation::CountDistinct,
        0,
    )
}

/// How many traces of the project started in each bucket of the absolute
/// window `[start_nanos, end_nanos]`.
pub fn get_total_trace_count_metrics_absolute(
    spans: &Vec<Span>,
    group_by_interval: GroupByInterval,
    project_id: u128,
    start_nanos: i64,
    end_nanos: i64,
) -> (r: Result<Vec<IntMetricTimeValue>, MetricsError>)
    requires
        spans_ok(spans@, project_id),
        absolute_window_ok(group_by_interval, start_nanos as int, end_nanos as int),
    ensures
        start_nanos > end_nanos <==> r matches Err(MetricsError::InvalidWindow),
        start_nanos <= end_nanos ==> (r matches Ok(v) && absolute_series_matches(
            v@,
            spans@,
            project_id,
            group_by_interval,
            MetricScalar::Unit,
            Aggregation::CountDistinct,
            0,
            start_nanos as int,
            end_nanos as int,
        )),
{
    proof {
        lemma_unit_sums_ok(spans@, project_id, group_by_interval);
    }
    absolute_series(
        spans,
        group_by_interval,
        project_id,
        start_nanos,
        end_nanos,
        MetricScalar::Unit,
        Aggregation::CountDistinct,
        0,
    )
}

/// Per-bucket reduction of trace latencies over the last `past_hours`
/// hours, in nanoseconds (seconds at the fixed-point scale), stabilized.
pub fn get_trace_latency_seconds_metrics_relative(
    spans: &Vec<Span>,
    group_by_interval: GroupByInterval,
    project_id: u128,
    past_hours: i64,
    now_nanos: i64,
    aggregation: Aggregation,
) -> (r: Result<Vec<IntMetricTimeValue>, MetricsError>)
    requires
        spans_ok(spans@, project_id),
        bucket_sums_ok(spans@, project_id, group_by_interval, MetricScalar::LatencyNanos),
        aggregation.valid(),
        relative_window_ok(now_nanos as int, past_hours as int),
    ensures
        past_hours < 0 <==> r matches Err(MetricsError::InvalidWindow),
        past_hours >= 0 ==> (r matches Ok(v) && relative_series_matches(
            v@,
            spans@,
            project_id,
            group_by_interval,
            MetricScalar::LatencyNanos,
            aggregation,
            STABILIZE_EPSILON as int,
            now_nanos as int,
            past_hours as int,
        )),
{
    relative_series(
        spans,
        group_by_interval,
        project_id,
        past_hours,
        now_nanos,
        MetricScalar::LatencyNanos,
        aggregation,
        STABILIZE_EPSILON,
    )
}

/// Per-bucket reduction of trace latencies over an absolute window, in
/// nanoseconds (seconds at the fixed-point scale), stabilized.
pub fn get_trace_latency_seconds_metrics_absolute(
    spans: &Vec<Span>,
    group_by_interval: GroupByInterval,
    project_id: u128,
    start_nanos: i64,
    end_nanos: i64,
    aggregation: Aggregation,
) -> (r: Result<Vec<IntMetricTimeValue>, MetricsError>)
    requires
        spans_ok(spans@, project_id),
        bucket_sums_ok(spans@, project_id, group_by_interval, MetricScalar::LatencyNanos),
        aggregation.valid(),
        absolute_window_ok(group_by_interval, start_nanos as int, end_nanos as int),
    ensures
        start_nanos > end_nanos <==> r matches Err(MetricsError::InvalidWindow),
        start_nanos <= end_nanos ==> (r matches Ok(v) && absolute_series_matches(
            v@,
            spans@,
            project_id,
            group_by_interval,
            MetricScalar::LatencyNanos,
            aggregation,
            STABILIZE_EPSILON as int,
            start_nanos as int,
            end_nanos as int,
        )),
{
    absolute_series(
        spans,
        group_by_interval,
        project_id,
        start_nanos,
        end_nanos,
        MetricScalar::LatencyNanos,
        aggregation,
        STABILIZE_EPSILON,
    )
}

/// Per-bucket reduction of trace token totals over the last `past_hours`
/// hours; exact, never stabilized.
pub fn get_total_token_count_metrics_relative(
    spans: &Vec<Span>,
    group_by_interval: GroupByInterval,
    project_id: u128,
    past_hours: i64,
    now_nanos: i64,
    aggregation: Aggregation,
) -> (r: Result<Vec<IntMetricTimeValue>, MetricsError>)
    requires
        spans_ok(spans@, project_id),
        bucket_sums_ok(spans@, project_id, group_by_interval, MetricScalar::Tokens),
        aggregation.valid(),
        relative_window_ok(now_nanos as int, past_hours as int),
    ensures
        past_hours < 0 <==> r matches Err(MetricsError::InvalidWindow),
        past_hours >= 0 ==> (r matches Ok(v) && relative_series_matches(
            v@,
            spans@,
            project_id,
            group_by_interval,
            MetricScalar::Tokens,
            aggregation,
            0,
            now_nanos as int,
            past_hours as int,
        )),
{
    relative_series(
        spans,
        group_by_interval,
        project_id,
        past_hours,
        now_nanos,
        MetricScalar::Tokens,
        aggregation,
        0,
    )
}

/// Per-bucket reduction of trace token totals over an absolute window;
/// exact, never stabilized.
pub fn get_total_token_count_metrics_absolute(
    spans: &Vec<Span>,
    group_by_interval: GroupByInterval,
    project_id: u128,
    start_nanos: i64,
    end_nanos: i64,
    aggregation: Aggregation,
) -> (r: Result<Vec<IntMetricTimeValue>, MetricsError>)
    requires
        spans_ok(spans@, project_id),
        bucket_sums_ok(spans@, project_id, group_by_interval, MetricScalar::Tokens),
        aggregation.valid(),
        absolute_window_ok(group_by_interval, start_nanos as int, end_nanos as int),
    ensures
        start_nanos > end_nanos <==> r matches Err(MetricsError::InvalidWindow),
        start_nanos <= end_nanos ==> (r matches Ok(v) && absolute_series_matches(
            v@,
            spans@,
            project_id,
            group_by_interval,
            MetricScalar::Tokens,
            aggregation,
            0,
            start_nanos as int,
            end_nanos as int,
        )),
{
    absolute_series(
        spans,
        group_by_interval,
        project_id,
        start_nanos,
        end_nanos,
        MetricScalar::Tokens,
        aggregation,
        0,
    )
}

/// Per-bucket reduction of trace costs over the last `past_hours` hours,
/// in units of 1e-9 dollars, stabilized.
pub fn get_cost_usd_metrics_relative(
    spans: &Vec<Span>,
    group_by_interval: GroupByInterval,
    project_id: u128,
    past_hours: i64,
    now_nanos: i64,
    aggregation: Aggregation,
) -> (r: Result<Vec<IntMetricTimeValue>, MetricsError>)
    requires
        spans_ok(spans@, project_id),
        bucket_sums_ok(spans@, project_id, group_by_interval, MetricScalar::CostUnits),
        aggregation.valid(),
        relative_window_ok(now_nanos as int, past_hours as int),
    ensures
        past_hours < 0 <==> r matches Err(MetricsError::InvalidWindow),
        past_hours >= 0 ==> (r matches Ok(v) && relative_series_matches(
            v@,
            spans@,
            project_id,
            group_by_interval,
            MetricScalar::CostUnits,
            aggregation,
            STABILIZE_EPSILON as int,
            now_nanos as int,
            past_hours as int,
        )),
{
    relative_series(
        spans,
        group_by_interval,
        project_id,
        past_hours,
        now_nanos,
        MetricScalar::CostUnits,
        aggregation,
        STABILIZE_EPSILON,
    )
}

/// Per-bucket reduction of trace costs over an absolute window, in units
/// of 1e-9 dollars, stabilized.
pub fn get_cost_usd_metrics_absolute(
    spans: &Vec<Span>,
    group_by_interval: GroupByInterval,
    project_id: u128,
    start_nanos: i64,
    end_nanos: i64,
    aggregation: Aggregation,
) -> (r: Result<Vec<IntMetricTimeValue>, MetricsError>)
    requires
        spans_ok(spans@, project_id),
        bucket_sums_ok(spans@, project_id, group_by_interval, MetricScalar::CostUnits),
        aggregation.valid(),
        absolute_window_ok(group_by_interval, start_nanos as int, end_nanos as int),
    ensures
        start_nanos > end_nanos <==> r matches Err(MetricsError::InvalidWindow),
        start_nanos <= end_nanos ==> (r matches Ok(v) && absolute_series_matches(
            v@,
            spans@,
            project_id,
            group_by_interval,
            MetricScalar::CostUnits,
            aggregation,
            STABILIZE_EPSILON as int,
            start_nanos as int,
            end_nanos as int,
        )),
{
    absolute_series(
        spans,
        group_by_interval,
        project_id,
        start_nanos,
        end_nanos,
        MetricScalar::CostUnits,
        aggregation,
        STABILIZE_EPSILON,
    )
}

} // verus!
