//! Bucketed series builder: the gap-filled metric series over a window.
//!
//! Given a project's spans, a granularity, a metric family's per-trace
//! scalar and a reducer, the builder derives the traces, assigns each trace
//! to the bucket containing the truncation of its earliest span start, and
//! emits one point per bucket boundary of the window's range — exactly
//! `(range_end - range_start) / step` points, evenly spaced, with value
//! zero wherever no trace falls.
//!
//! A relative window `{past}` anchored at `now` ranges over
//! `[truncate(now - past) + step, truncate(now) + step)` and admits traces
//! whose bucket is no earlier than `now - past`; an absolute window
//! `{start, end}` ranges over `[truncate(start), truncate(end))` and admits
//! traces whose bucket lies within `[start, end]`.

use vstd::prelude::*;
use vstd::arithmetic::div_mod::{
    lemma_div_is_ordered, lemma_div_is_ordered_by_denominator, lemma_div_pos_is_pos,
    lemma_fundamental_div_mod, lemma_fundamental_div_mod_converse, lemma_mod_bound,
};
use vstd::arithmetic::mul::lemma_mul_inequality;
use crate::aggregation::{
    Aggregation, aggregate, aggregate_spec, seq_sum, to_int_seq,
};
use crate::interval::{
    GroupByInterval, MAX_INSTANT_NANOS, NANOS_PER_SECOND, lemma_aligned_plus_steps,
    lemma_aligned_whole_seconds, lemma_truncate_bounds, lemma_truncate_monotone,
};
use crate::span::{IntMetricTimeValue, Span, spans_valid};
use crate::stabilize::{stabilize, stabilize_spec};
use crate::trace::{
    Trace, derive_traces, distinct_trace_ids, lemma_distinct_trace_ids_len, lemma_trace_facts,
    trace_cost, trace_end, trace_start, trace_tokens, trace_wf,
};

verus! {

/// The largest number of spans one request handles.
pub const MAX_SPANS: usize = 0x7fff_ffff;

/// The per-trace scalar a metric family reduces.
#[derive(Clone, Copy, PartialEq, Eq, Structural, Debug)]
pub enum MetricScalar {
    /// One per trace; reduced by count-distinct for the trace-count family.
    Unit,
    /// Trace latency: latest span end minus earliest span start, in
    /// nanoseconds, which is seconds at the fixed-point scale.
    LatencyNanos,
    /// Summed token count of the trace.
    Tokens,
    /// Summed cost of the trace, in units of 1e-9 dollars.
    CostUnits,
}

/// The scalar a trace contributes to its bucket.
pub open spec fn trace_scalar(s: Seq<Span>, project_id: u128, trace_id: u128, fam: MetricScalar) -> int {
    match fam {
        MetricScalar::Unit => 1,
        MetricScalar::LatencyNanos => trace_end(s, project_id, trace_id) - trace_start(
            s,
            project_id,
            trace_id,
        ),
        MetricScalar::Tokens => trace_tokens(s, project_id, trace_id),
        MetricScalar::CostUnits => trace_cost(s, project_id, trace_id),
    }
}

/// Of the given trace identifiers, those whose trace starts in bucket `b`:
/// the bucket a trace belongs to is the truncation of its earliest span
/// start, never of its end.
pub open spec fn bucket_trace_ids(
    tids: Seq<u128>,
    s: Seq<Span>,
    project_id: u128,
    iv: GroupByInterval,
    b: int,
) -> Seq<u128>
    decreases tids.len(),
{
    if tids.len() == 0 {
        Seq::empty()
    } else {
        let rest = bucket_trace_ids(tids.drop_last(), s, project_id, iv, b);
        if iv.truncate_spec(trace_start(s, project_id, tids.last())) == b {
            rest.push(tids.last())
        } else {
            rest
        }
    }
}

/// The scalars of the traces assigned to bucket `b`, in trace order.
pub open spec fn bucket_scalars(
    tids: Seq<u128>,
    s: Seq<Span>,
    project_id: u128,
    iv: GroupByInterval,
    fam: MetricScalar,
    b: int,
) -> Seq<int>
    decreases tids.len(),
{
    if tids.len() == 0 {
        Seq::empty()
    } else {
        let rest = bucket_scalars(tids.drop_last(), s, project_id, iv, fam, b);
        if iv.truncate_spec(trace_start(s, project_id, tids.last())) == b {
            rest.push(trace_scalar(s, project_id, tids.last(), fam))
        } else {
            rest
        }
    }
}

/// Value of the series point at bucket boundary `b`: the reducer applied to
/// the bucket's scalars when `b` passes the window filter, zero otherwise.
pub open spec fn point_value(
    s: Seq<Span>,
    project_id: u128,
    iv: GroupByInterval,
    fam: MetricScalar,
    agg: Aggregation,
    b: int,
    filter_lo: int,
    filter_hi: int,
) -> int {
    if filter_lo <= b <= filter_hi {
        aggregate_spec(
            agg,
            bucket_scalars(distinct_trace_ids(s, project_id), s, project_id, iv, fam, b),
        )
    } else {
        0
    }
}

/// First boundary of a relative window: one step past the truncation of the
/// window's oldest instant.
pub open spec fn relative_range_start(iv: GroupByInterval, now: int, past: int) -> int {
    iv.truncate_spec(now - past) + iv.step_nanos_spec()
}

/// Past-the-last boundary of a relative window: one step past the
/// truncation of `now`, so the bucket containing `now` is included.
pub open spec fn relative_range_end(iv: GroupByInterval, now: int) -> int {
    iv.truncate_spec(now) + iv.step_nanos_spec()
}

/// First boundary of an absolute window: the truncation of its start.
pub open spec fn absolute_range_start(iv: GroupByInterval, start: int) -> int {
    iv.truncate_spec(start)
}

/// Past-the-last boundary of an absolute window: the truncation of its end.
pub open spec fn absolute_range_end(iv: GroupByInterval, end: int) -> int {
    iv.truncate_spec(end)
}

/// How many whole buckets the range holds.
pub open spec fn num_buckets(iv: GroupByInterval, range_start: int, range_end: int) -> int {
    (range_end - range_start) / iv.step_nanos_spec()
}

/// The series is complete and gap-free over the range: one point per bucket
/// boundary, in ascending order at exactly step spacing, each value the
/// stabilized aggregate of its bucket (zero where no trace falls).
pub open spec fn series_matches(
    v: Seq<IntMetricTimeValue>,
    s: Seq<Span>,
    project_id: u128,
    iv: GroupByInterval,
    fam: MetricScalar,
    agg: Aggregation,
    epsilon: int,
    range_start: int,
    range_end: int,
    filter_lo: int,
    filter_hi: int,
) -> bool {
    &&& v.len() == num_buckets(iv, range_start, range_end)
    &&& forall|k: int|
        0 <= k < v.len() ==> (#[trigger] v[k]).time as int * (NANOS_PER_SECOND as int)
            == range_start + k * iv.step_nanos_spec()
    &&& forall|k: int|
        0 <= k < v.len() ==> (#[trigger] v[k]).value as int == stabilize_spec(
            point_value(
                s,
                project_id,
                iv,
                fam,
                agg,
                range_start + k * iv.step_nanos_spec(),
                filter_lo,
                filter_hi,
            ),
            epsilon,
        )
}

/// The distance between two boundaries of one grid is a whole number of
/// steps.
proof fn lemma_aligned_diff(iv: GroupByInterval, range_start: int, range_end: int)
    requires
        iv.aligned(range_start),
        iv.aligned(range_end),
        range_start <= range_end,
    ensures
        num_buckets(iv, range_start, range_end) * iv.step_nanos_spec() == range_end - range_start,
        num_buckets(iv, range_start, range_end) >= 0,
{
    let a = iv.anchor_nanos_spec();
    let s = iv.step_nanos_spec();
    let q1 = (range_start - a) / s;
    let q2 = (range_end - a) / s;
    lemma_fundamental_div_mod(range_start - a, s);
    lemma_fundamental_div_mod(range_end - a, s);
    assert(range_end - range_start == (q2 - q1) * s) by (nonlinear_arith)
        requires
            range_start == a + q1 * s,
            range_end == a + q2 * s,
    ;
    lemma_fundamental_div_mod_converse(range_end - range_start, s, q2 - q1, 0);
    lemma_div_pos_is_pos(range_end - range_start, s);
}

/// Build one gap-filled series: derive the traces, assign each to the
/// bucket of its start, and emit the stabilized aggregate for every bucket
/// boundary from `range_start` (inclusive) to `range_end` (exclusive) at
/// step spacing, zero where the boundary fails the window filter or holds
/// no trace.
pub fn build_series(
    spans: &Vec<Span>,
    project_id: u128,
    interval: GroupByInterval,
    fam: MetricScalar,
    agg: Aggregation,
    epsilon: i64,
    range_start: i64,
    range_end: i64,
    filter_lo: i64,
    filter_hi: i64,
) -> (r: Vec<IntMetricTimeValue>)
    requires
        spans_valid(spans@),
        spans@.len() <= MAX_SPANS,
        forall|tid: u128| #[trigger] trace_tokens(spans@, project_id, tid) <= i64::MAX,
        forall|tid: u128| #[trigger] trace_cost(spans@, project_id, tid) <= i64::MAX,
        agg.valid(),
        0 <= epsilon,
        interval.aligned(range_start as int),
        interval.aligned(range_end as int),
        0 <= range_start <= range_end,
        range_end <= MAX_INSTANT_NANOS + interval.step_nanos_spec(),
        forall|b: int|
            #[trigger] seq_sum(
                bucket_scalars(
                    distinct_trace_ids(spans@, project_id),
                    spans@,
                    project_id,
                    interval,
                    fam,
                    b,
                ),
            ) <= i64::MAX,
    ensures
        series_matches(
            r@,
            spans@,
            project_id,
            interval,
            fam,
            agg,
            epsilon as int,
            range_start as int,
            range_end as int,
            filter_lo as int,
            filter_hi as int,
        ),
{
    let traces = derive_traces(spans, project_id);
    let ghost tids = distinct_trace_ids(spans@, project_id);
    proof {
        lemma_distinct_trace_ids_len(spans@, project_id);
    }
    let step = interval.step_nanos();
    let diff = range_end - range_start;
    proof {
        lemma_aligned_diff(interval, range_start as int, range_end as int);
        lemma_div_is_ordered_by_denominator(diff as int, 60_000_000_000, step as int);
        lemma_div_is_ordered(diff as int, MAX_INSTANT_NANOS as int + 604_800_000_000_000, 60_000_000_000);
    }
    let n_buckets = ((diff as u64) / (step as u64)) as usize;
    let ghost nb = num_buckets(interval, range_start as int, range_end as int);
    let mut out: Vec<IntMetricTimeValue> = Vec::new();
    let mut k: usize = 0;
    while k < n_buckets
        invariant
            spans_valid(spans@),
            spans@.len() <= MAX_SPANS,
            forall|tid: u128| #[trigger] trace_tokens(spans@, project_id, tid) <= i64::MAX,
            forall|tid: u128| #[trigger] trace_cost(spans@, project_id, tid) <= i64::MAX,
            agg.valid(),
            0 <= epsilon,
            interval.aligned(range_start as int),
            interval.aligned(range_end as int),
            0 <= range_start <= range_end,
            range_end <= MAX_INSTANT_NANOS + interval.step_nanos_spec(),
            forall|b: int|
                #[trigger] seq_sum(
                    bucket_scalars(tids, spans@, project_id, interval, fam, b),
                ) <= i64::MAX,
            tids == distinct_trace_ids(spans@, project_id),
            traces@.len() == tids.len(),
            tids.len() <= spans@.len(),
            forall|j: int| 0 <= j < traces@.len() ==> (#[trigger] traces@[j]).trace_id == tids[j],
            forall|j: int| 0 <= j < traces@.len() ==> trace_wf(
                spans@,
                project_id,
                #[trigger] traces@[j],
            ),
            step as int == interval.step_nanos_spec(),
            nb == num_buckets(interval, range_start as int, range_end as int),
            n_buckets as int == nb,
            nb * interval.step_nanos_spec() == range_end - range_start,
            0 <= k <= n_buckets,
            out@.len() == k,
            forall|k2: int|
                0 <= k2 < out@.len() ==> (#[trigger] out@[k2]).time as int * (
                NANOS_PER_SECOND as int) == range_start as int + k2 * interval.step_nanos_spec(),
            forall|k2: int|
                0 <= k2 < out@.len() ==> (#[trigger] out@[k2]).value as int == stabilize_spec(
                    point_value(
                        spans@,
                        project_id,
                        interval,
                        fam,
                        agg,
                        range_start as int + k2 * interval.step_nanos_spec(),
                        filter_lo as int,
                        filter_hi as int,
                    ),
                    epsilon as int,
                ),
        decreases n_buckets - k,
    {
        proof {
            lemma_mul_inequality(k as int, nb - 1, step as int);
            lemma_mul_inequality(0, k as int, step as int);
            assert((nb - 1) * (step as int) == nb * (step as int) - (step as int))
                by (nonlinear_arith);
        }
        let b = range_start + (k as i64) * step;
        let ghost bi = b as int;
        let value: i64;
        if filter_lo <= b && b <= filter_hi {
            let mut vals: Vec<i64> = Vec::new();
            let n_traces = traces.len();
            let mut t: usize = 0;
            while t < n_traces
                invariant
                    spans_valid(spans@),
                    n_traces == traces@.len(),
                    0 <= t <= n_traces,
                    tids == distinct_trace_ids(spans@, project_id),
                    traces@.len() == tids.len(),
                    forall|j: int| 0 <= j < traces@.len() ==> (#[trigger] traces@[j]).trace_id
                        == tids[j],
                    forall|j: int| 0 <= j < traces@.len() ==> trace_wf(
                        spans@,
                        project_id,
                        #[trigger] traces@[j],
                    ),
                    bi == b as int,
                    to_int_seq(vals@) == bucket_scalars(
                        tids.take(t as int),
                        spans@,
                        project_id,
                        interval,
                        fam,
                        bi,
                    ),
                    vals@.len() <= t,
                    forall|i: int| 0 <= i < vals@.len() ==> 0 <= #[trigger] vals@[i],
                decreases n_traces - t,
            {
                proof {
                    assert(tids.take(t as int + 1).drop_last() =~= tids.take(t as int));
                    assert(tids.take(t as int + 1).last() == tids[t as int]);
                    lemma_trace_facts(spans@, project_id, tids[t as int]);
                }
                let tr = traces[t];
                let bucket = interval.truncate(tr.start_time);
                if bucket == b {
                    let scalar: i64 = match fam {
                        MetricScalar::Unit => 1,
                        MetricScalar::LatencyNanos => tr.end_time - tr.start_time,
                        MetricScalar::Tokens => tr.total_tokens,
                        MetricScalar::CostUnits => tr.total_cost_units,
                    };
                    let ghost old_vals = vals@;
                    vals.push(scalar);
                    proof {
                        assert(to_int_seq(vals@) =~= to_int_seq(old_vals).push(scalar as int));
                    }
                }
                t += 1;
            }
            proof {
                assert(tids.take(tids.len() as int) =~= tids);
            }
            let agg_value = aggregate(agg, &vals);
            value = stabilize(agg_value, epsilon);
        } else {
            value = 0;
            proof {
                assert(stabilize_spec(
                    point_value(
                        spans@,
                        project_id,
                        interval,
                        fam,
                        agg,
                        bi,
                        filter_lo as int,
                        filter_hi as int,
                    ),
                    epsilon as int,
                ) == 0);
            }
        }
        proof {
            lemma_aligned_plus_steps(interval, range_start as int, k as int);
            lemma_aligned_whole_seconds(interval, bi);
            lemma_div_pos_is_pos(bi, NANOS_PER_SECOND as int);
            lemma_div_is_ordered(bi, MAX_INSTANT_NANOS as int, NANOS_PER_SECOND as int);
            lemma_fundamental_div_mod_converse(
                MAX_INSTANT_NANOS as int,
                NANOS_PER_SECOND as int,
                u32::MAX as int,
                0,
            );
        }
        let time = ((b as u64) / (NANOS_PER_SECOND as u64)) as u32;
        out.push(IntMetricTimeValue { time, value });
        k += 1;
    }
    out
}

/// Gap-fill completeness: a series matching a range holds exactly one
/// point per whole bucket of the window, its bucket times strictly
/// increase and are evenly spaced one step apart, and no bucket time lies
/// outside `[range_start, range_end)`.
pub proof fn lemma_series_gap_free(
    v: Seq<IntMetricTimeValue>,
    s: Seq<Span>,
    project_id: u128,
    iv: GroupByInterval,
    fam: MetricScalar,
    agg: Aggregation,
    epsilon: int,
    range_start: int,
    range_end: int,
    filter_lo: int,
    filter_hi: int,
    k: int,
)
    requires
        series_matches(
            v,
            s,
            project_id,
            iv,
            fam,
            agg,
            epsilon,
            range_start,
            range_end,
            filter_lo,
            filter_hi,
        ),
        iv.aligned(range_start),
        iv.aligned(range_end),
        range_start <= range_end,
        0 <= k < v.len(),
    ensures
        v.len() == num_buckets(iv, range_start, range_end),
        range_start <= v[k].time as int * (NANOS_PER_SECOND as int) < range_end,
        k < v.len() - 1 ==> v[k + 1].time as int * (NANOS_PER_SECOND as int) == v[k].time as int
            * (NANOS_PER_SECOND as int) + iv.step_nanos_spec(),
        k < v.len() - 1 ==> v[k].time < v[k + 1].time,
{
    let g = NANOS_PER_SECOND as int;
    let st = iv.step_nanos_spec();
    let n = num_buckets(iv, range_start, range_end);
    lemma_aligned_diff(iv, range_start, range_end);
    lemma_mul_inequality(0, k, st);
    lemma_mul_inequality(k, n - 1, st);
    assert((n - 1) * st == n * st - st) by (nonlinear_arith);
    if k < v.len() - 1 {
        assert((k + 1) * st == k * st + st) by (nonlinear_arith);
        if v[k + 1].time <= v[k].time {
            lemma_mul_inequality(v[k + 1].time as int, v[k].time as int, g);
        }
    }
}

/// A bucket of unit scalars sums to at most the number of traces.
pub proof fn lemma_unit_bucket_sum_le(
    tids: Seq<u128>,
    s: Seq<Span>,
    project_id: u128,
    iv: GroupByInterval,
    b: int,
)
    ensures
        0 <= seq_sum(bucket_scalars(tids, s, project_id, iv, MetricScalar::Unit, b)),
        seq_sum(bucket_scalars(tids, s, project_id, iv, MetricScalar::Unit, b)) <= tids.len(),
    decreases tids.len(),
{
    if tids.len() > 0 {
        lemma_unit_bucket_sum_le(tids.drop_last(), s, project_id, iv, b);
        let rest = bucket_scalars(tids.drop_last(), s, project_id, iv, MetricScalar::Unit, b);
        if iv.truncate_spec(trace_start(s, project_id, tids.last())) == b {
            assert(rest.push(1).drop_last() =~= rest);
        }
    }
}

/// Relative and absolute windows share one bucket grid: a relative window
/// of duration `past` anchored at `now` has the same number of boundaries
/// as the absolute window from `now - past` to `now`, and each relative
/// boundary is exactly the following absolute boundary. The two series
/// differ only at the ends: the relative window ends with the bucket of
/// `now`, where the absolute window begins with the bucket of `now - past`.
pub proof fn lemma_relative_absolute_window_alignment(iv: GroupByInterval, now: int, past: int)
    ensures
        relative_range_start(iv, now, past) == absolute_range_start(iv, now - past)
            + iv.step_nanos_spec(),
        relative_range_end(iv, now) == absolute_range_end(iv, now) + iv.step_nanos_spec(),
        num_buckets(iv, relative_range_start(iv, now, past), relative_range_end(iv, now))
            == num_buckets(iv, absolute_range_start(iv, now - past), absolute_range_end(iv, now)),
        forall|k: int|
            relative_range_start(iv, now, past) + #[trigger] (k * iv.step_nanos_spec())
                == absolute_range_start(iv, now - past) + (k + 1) * iv.step_nanos_spec(),
{
    let s = iv.step_nanos_spec();
    let rel_start = relative_range_start(iv, now, past);
    let rel_end = relative_range_end(iv, now);
    let abs_start = absolute_range_start(iv, now - past);
    let abs_end = absolute_range_end(iv, now);
    assert(rel_start == abs_start + s);
    assert(rel_end == abs_end + s);
    assert(rel_end - rel_start == abs_end - abs_start);
    assert(num_buckets(iv, rel_start, rel_end) == num_buckets(iv, abs_start, abs_end));
    assert forall|k: int| rel_start + #[trigger] (k * s) == abs_start + (k + 1) * s by {
        assert((k + 1) * s == k * s + s) by (nonlinear_arith);
    }
}

/// A project without spans lists no trace identifiers.
proof fn lemma_distinct_trace_ids_none(s: Seq<Span>, project_id: u128)
    requires
        forall|i: int| 0 <= i < s.len() ==> (#[trigger] s[i]).project_id != project_id,
    ensures
        distinct_trace_ids(s, project_id) == Seq::<u128>::empty(),
    decreases s.len(),
{
    if s.len() > 0 {
        assert forall|i: int|
            0 <= i < s.drop_last().len() implies (#[trigger] s.drop_last()[i]).project_id
            != project_id by {
            assert(s.drop_last()[i] == s[i]);
        }
        lemma_distinct_trace_ids_none(s.drop_last(), project_id);
        assert(s[s.len() - 1].project_id != project_id);
    }
}

/// For a project with no underlying spans, every point of every window
/// evaluates to exactly zero — not absent, not an error.
pub proof fn lemma_zero_series_without_spans(
    s: Seq<Span>,
    project_id: u128,
    iv: GroupByInterval,
    fam: MetricScalar,
    agg: Aggregation,
    b: int,
    filter_lo: int,
    filter_hi: int,
)
    requires
        forall|i: int| 0 <= i < s.len() ==> (#[trigger] s[i]).project_id != project_id,
    ensures
        point_value(s, project_id, iv, fam, agg, b, filter_lo, filter_hi) == 0,
{
    lemma_distinct_trace_ids_none(s, project_id);
}

/// A trace identifier belongs to the traces of bucket `b` exactly when it
/// is listed and the truncation of its earliest span start is `b`. The end
/// instant of the trace plays no part: even a trace that ends many buckets
/// later belongs to the bucket of its start.
pub proof fn lemma_bucket_trace_ids_member(
    tids: Seq<u128>,
    s: Seq<Span>,
    project_id: u128,
    iv: GroupByInterval,
    b: int,
    trace_id: u128,
)
    ensures
        bucket_trace_ids(tids, s, project_id, iv, b).contains(trace_id) <==> (tids.contains(
            trace_id,
        ) && iv.truncate_spec(trace_start(s, project_id, trace_id)) == b),
    decreases tids.len(),
{
    if tids.len() == 0 {
        assert(!tids.contains(trace_id));
        assert(!bucket_trace_ids(tids, s, project_id, iv, b).contains(trace_id));
    } else {
        lemma_bucket_trace_ids_member(tids.drop_last(), s, project_id, iv, b, trace_id);
        let rest = bucket_trace_ids(tids.drop_last(), s, project_id, iv, b);
        assert(tids =~= tids.drop_last().push(tids.last()));
        vstd::seq_lib::lemma_seq_contains_after_push(tids.drop_last(), tids.last(), trace_id);
        if iv.truncate_spec(trace_start(s, project_id, tids.last())) == b {
            vstd::seq_lib::lemma_seq_contains_after_push(rest, tids.last(), trace_id);
        }
    }
}

/// Attribution by start: a trace contributes to at most one bucket. Its
/// whole value stands in the bucket containing the truncation of its
/// earliest span start, and in no other — never split, never duplicated.
pub proof fn lemma_attribution_by_start(
    tids: Seq<u128>,
    s: Seq<Span>,
    project_id: u128,
    iv: GroupByInterval,
    b1: int,
    b2: int,
    trace_id: u128,
)
    requires
        b1 != b2,
        bucket_trace_ids(tids, s, project_id, iv, b1).contains(trace_id),
    ensures
        !bucket_trace_ids(tids, s, project_id, iv, b2).contains(trace_id),
{
    lemma_bucket_trace_ids_member(tids, s, project_id, iv, b1, trace_id);
    lemma_bucket_trace_ids_member(tids, s, project_id, iv, b2, trace_id);
}

/// The scalars of a bucket are exactly the scalars of the bucket's traces,
/// in the same order.
pub proof fn lemma_bucket_scalars_are_trace_scalars(
    tids: Seq<u128>,
    s: Seq<Span>,
    project_id: u128,
    iv: GroupByInterval,
    fam: MetricScalar,
    b: int,
)
    ensures
        bucket_scalars(tids, s, project_id, iv, fam, b) == bucket_trace_ids(
            tids,
            s,
            project_id,
            iv,
            b,
        ).map_values(|tid: u128| trace_scalar(s, project_id, tid, fam)),
    decreases tids.len(),
{
    let f = |tid: u128| trace_scalar(s, project_id, tid, fam);
    if tids.len() == 0 {
        assert(bucket_trace_ids(tids, s, project_id, iv, b).map_values(f) =~= Seq::<int>::empty());
    } else {
        lemma_bucket_scalars_are_trace_scalars(tids.drop_last(), s, project_id, iv, fam, b);
        let rest_ids = bucket_trace_ids(tids.drop_last(), s, project_id, iv, b);
        if iv.truncate_spec(trace_start(s, project_id, tids.last())) == b {
            assert(rest_ids.push(tids.last()).map_values(f) =~= rest_ids.map_values(f).push(
                f(tids.last()),
            ));
        }
    }
}

} // verus!
