//! Trace derivation: per-trace facts computed from span rows.
//!
//! A trace is the set of spans sharing a trace identifier within a project;
//! it is derived on every query, never stored. Its start is the earliest
//! span start, its end the latest span end, and its totals the sums of the
//! spans' totals.

use vstd::prelude::*;
use crate::interval::MAX_INSTANT_NANOS;
use crate::span::{Span, spans_valid};

verus! {

/// The span belongs to the given trace of the given project.
pub open spec fn span_in_trace(sp: Span, project_id: u128, trace_id: u128) -> bool {
    sp.project_id == project_id && sp.trace_id == trace_id
}

/// How many spans of the sequence belong to the given trace.
pub open spec fn matching_count(s: Seq<Span>, project_id: u128, trace_id: u128) -> nat
    decreases s.len(),
{
    if s.len() == 0 {
        0
    } else {
        matching_count(s.drop_last(), project_id, trace_id) + if span_in_trace(
            s.last(),
            project_id,
            trace_id,
        ) {
            1nat
        } else {
            0nat
        }
    }
}

/// Earliest start instant over the trace's spans; `i64::MAX` when the trace
/// has no spans in the sequence.
pub open spec fn trace_start(s: Seq<Span>, project_id: u128, trace_id: u128) -> int
    decreases s.len(),
{
    if s.len() == 0 {
        i64::MAX as int
    } else {
        let rest = trace_start(s.drop_last(), project_id, trace_id);
        if span_in_trace(s.last(), project_id, trace_id) && (s.last().start_time as int) < rest {
            s.last().start_time as int
        } else {
            rest
        }
    }
}

/// Latest end instant over the trace's spans; `i64::MIN` when the trace has
/// no spans in the sequence.
pub open spec fn trace_end(s: Seq<Span>, project_id: u128, trace_id: u128) -> int
    decreases s.len(),
{
    if s.len() == 0 {
        i64::MIN as int
    } else {
        let rest = trace_end(s.drop_last(), project_id, trace_id);
        if span_in_trace(s.last(), project_id, trace_id) && (s.last().end_time as int) > rest {
            s.last().end_time as int
        } else {
            rest
        }
    }
}

/// Summed token count over the trace's spans.
pub open spec fn trace_tokens(s: Seq<Span>, project_id: u128, trace_id: u128) -> int
    decreases s.len(),
{
    if s.len() == 0 {
        0
    } else {
        trace_tokens(s.drop_last(), project_id, trace_id) + if span_in_trace(
            s.last(),
            project_id,
            trace_id,
        ) {
            s.last().total_tokens as int
        } else {
            0
        }
    }
}

/// Summed cost over the trace's spans, in units of 1e-9 dollars.
pub open spec fn trace_cost(s: Seq<Span>, project_id: u128, trace_id: u128) -> int
    decreases s.len(),
{
    if s.len() == 0 {
        0
    } else {
        trace_cost(s.drop_last(), project_id, trace_id) + if span_in_trace(
            s.last(),
            project_id,
            trace_id,
        ) {
            s.last().total_cost_units as int
        } else {
            0
        }
    }
}

/// The distinct trace identifiers of a project's spans, in order of first
/// appearance.
pub open spec fn distinct_trace_ids(s: Seq<Span>, project_id: u128) -> Seq<u128>
    decreases s.len(),
{
    if s.len() == 0 {
        Seq::empty()
    } else {
        let rest = distinct_trace_ids(s.drop_last(), project_id);
        if s.last().project_id == project_id && !rest.contains(s.last().trace_id) {
            rest.push(s.last().trace_id)
        } else {
            rest
        }
    }
}

/// Per-trace derived facts: earliest start, latest end, summed totals.
#[derive(Clone, Copy, PartialEq, Eq, Structural, Debug)]
pub struct Trace {
    /// The trace identifier the facts were grouped by.
    pub trace_id: u128,
    /// Earliest span start, nanoseconds since the Unix epoch.
    pub start_time: i64,
    /// Latest span end, nanoseconds since the Unix epoch.
    pub end_time: i64,
    /// Summed token count over the trace's spans.
    pub total_tokens: i64,
    /// Summed cost over the trace's spans, in units of 1e-9 dollars.
    pub total_cost_units: i64,
}

/// The trace record states exactly the derived facts of its trace
/// identifier over the given spans.
pub open spec fn trace_wf(s: Seq<Span>, project_id: u128, t: Trace) -> bool {
    &&& matching_count(s, project_id, t.trace_id) > 0
    &&& t.start_time as int == trace_start(s, project_id, t.trace_id)
    &&& t.end_time as int == trace_end(s, project_id, t.trace_id)
    &&& t.total_tokens as int == trace_tokens(s, project_id, t.trace_id)
    &&& t.total_cost_units as int == trace_cost(s, project_id, t.trace_id)
}

/// Dropping the last span keeps every remaining span well formed.
proof fn lemma_spans_valid_drop_last(s: Seq<Span>)
    requires
        spans_valid(s),
        s.len() > 0,
    ensures
        spans_valid(s.drop_last()),
{
    assert forall|i: int| 0 <= i < s.drop_last().len() implies (#[trigger] s.drop_last()[i]).valid() by {
        assert(s.drop_last()[i] == s[i]);
    }
}

/// Over well-formed spans the derived facts are themselves well formed:
/// totals are not negative, and a trace with at least one span has ordered,
/// in-range instants.
pub proof fn lemma_trace_facts(s: Seq<Span>, project_id: u128, trace_id: u128)
    requires
        spans_valid(s),
    ensures
        0 <= trace_tokens(s, project_id, trace_id),
        0 <= trace_cost(s, project_id, trace_id),
        matching_count(s, project_id, trace_id) > 0 ==> {
            &&& 0 <= trace_start(s, project_id, trace_id)
            &&& trace_start(s, project_id, trace_id) <= trace_end(s, project_id, trace_id)
            &&& trace_end(s, project_id, trace_id) <= MAX_INSTANT_NANOS
        },
        matching_count(s, project_id, trace_id) == 0 ==> {
            &&& trace_start(s, project_id, trace_id) == i64::MAX as int
            &&& trace_end(s, project_id, trace_id) == i64::MIN as int
        },
    decreases s.len(),
{
    if s.len() > 0 {
        lemma_spans_valid_drop_last(s);
        lemma_trace_facts(s.drop_last(), project_id, trace_id);
        assert(s[s.len() - 1].valid());
    }
}

/// A prefix of the spans accounts for at most the whole sequence's totals.
pub proof fn lemma_trace_prefix(s: Seq<Span>, project_id: u128, trace_id: u128, j: int)
    requires
        spans_valid(s),
        0 <= j <= s.len(),
    ensures
        trace_tokens(s.take(j), project_id, trace_id) <= trace_tokens(s, project_id, trace_id),
        trace_cost(s.take(j), project_id, trace_id) <= trace_cost(s, project_id, trace_id),
    decreases s.len() - j,
{
    if j == s.len() {
        assert(s.take(j) =~= s);
    } else {
        lemma_trace_prefix(s, project_id, trace_id, j + 1);
        assert(s.take(j + 1).drop_last() =~= s.take(j));
        assert(s.take(j + 1).last() == s[j]);
        assert(s[j].valid());
    }
}

/// A sequence holding a span of the trace has a positive matching count.
pub proof fn lemma_matching_count_positive(s: Seq<Span>, project_id: u128, trace_id: u128, i: int)
    requires
        0 <= i < s.len(),
        span_in_trace(s[i], project_id, trace_id),
    ensures
        matching_count(s, project_id, trace_id) > 0,
    decreases s.len(),
{
    if i < s.len() - 1 {
        assert(s.drop_last()[i] == s[i]);
        lemma_matching_count_positive(s.drop_last(), project_id, trace_id, i);
    }
}

/// There are no more distinct trace identifiers than spans.
pub proof fn lemma_distinct_trace_ids_len(s: Seq<Span>, project_id: u128)
    ensures
        distinct_trace_ids(s, project_id).len() <= s.len(),
    decreases s.len(),
{
    if s.len() > 0 {
        lemma_distinct_trace_ids_len(s.drop_last(), project_id);
    }
}

/// Group a project's spans into traces and derive each trace's facts:
/// earliest start, latest end, summed token count and summed cost. One
/// record per distinct trace identifier, in order of first appearance.
pub fn derive_traces(spans: &Vec<Span>, project_id: u128) -> (r: Vec<Trace>)
    requires
        spans_valid(spans@),
        forall|tid: u128| #[trigger] trace_tokens(spans@, project_id, tid) <= i64::MAX,
        forall|tid: u128| #[trigger] trace_cost(spans@, project_id, tid) <= i64::MAX,
    ensures
        r@.len() == distinct_trace_ids(spans@, project_id).len(),
        forall|j: int| 0 <= j < r@.len() ==> (#[trigger] r@[j]).trace_id == distinct_trace_ids(
            spans@,
            project_id,
        )[j],
        forall|j: int| 0 <= j < r@.len() ==> trace_wf(spans@, project_id, #[trigger] r@[j]),
{
    let mut result: Vec<Trace> = Vec::new();
    let n = spans.len();
    let mut i: usize = 0;
    while i < n
        invariant
            n == spans@.len(),
            0 <= i <= n,
            spans_valid(spans@),
            forall|tid: u128| #[trigger] trace_tokens(spans@, project_id, tid) <= i64::MAX,
            forall|tid: u128| #[trigger] trace_cost(spans@, project_id, tid) <= i64::MAX,
            result@.len() == distinct_trace_ids(spans@.take(i as int), project_id).len(),
            forall|j: int| 0 <= j < result@.len() ==> (#[trigger] result@[j]).trace_id
                == distinct_trace_ids(spans@.take(i as int), project_id)[j],
            forall|j: int| 0 <= j < result@.len() ==> trace_wf(
                spans@,
                project_id,
                #[trigger] result@[j],
            ),
        decreases n - i,
    {
        let sp = spans[i];
        let ghost prefix_ids = distinct_trace_ids(spans@.take(i as int), project_id);
        if sp.project_id == project_id {
            let mut found = false;
            let mut k: usize = 0;
            while k < result.len()
                invariant
                    0 <= k <= result@.len(),
                    found == exists|j: int| 0 <= j < k && (#[trigger] result@[j]).trace_id
                        == sp.trace_id,
                decreases result@.len() - k,
            {
                if result[k].trace_id == sp.trace_id {
                    found = true;
                }
                k += 1;
            }
            proof {
                if found {
                    let j = choose|j: int| 0 <= j < result@.len() && (#[trigger] result@[j]).trace_id
                        == sp.trace_id;
                    assert(prefix_ids[j] == sp.trace_id);
                    assert(prefix_ids.contains(sp.trace_id));
                } else {
                    if prefix_ids.contains(sp.trace_id) {
                        let j = choose|j: int| 0 <= j < prefix_ids.len() && prefix_ids[j]
                            == sp.trace_id;
                        assert(result@[j].trace_id == sp.trace_id);
                    }
                }
            }
            if !found {
                let ghost tid = sp.trace_id;
                let mut start: i64 = i64::MAX;
                let mut end: i64 = i64::MIN;
                let mut tokens: i64 = 0;
                let mut cost: i64 = 0;
                let mut j: usize = 0;
                while j < n
                    invariant
                        n == spans@.len(),
                        0 <= j <= n,
                        spans_valid(spans@),
                        forall|t: u128| #[trigger] trace_tokens(spans@, project_id, t) <= i64::MAX,
                        forall|t: u128| #[trigger] trace_cost(spans@, project_id, t) <= i64::MAX,
                        tid == sp.trace_id,
                        start as int == trace_start(spans@.take(j as int), project_id, tid),
                        end as int == trace_end(spans@.take(j as int), project_id, tid),
                        tokens as int == trace_tokens(spans@.take(j as int), project_id, tid),
                        cost as int == trace_cost(spans@.take(j as int), project_id, tid),
                    decreases n - j,
                {
                    proof {
                        assert(spans@.take(j as int + 1).drop_last() =~= spans@.take(j as int));
                        assert(spans@.take(j as int + 1).last() == spans@[j as int]);
                        assert(spans@[j as int].valid());
                        lemma_spans_valid_take(spans@, j as int + 1);
                        lemma_trace_facts(spans@.take(j as int + 1), project_id, tid);
                        lemma_trace_prefix(spans@, project_id, tid, j as int + 1);
                    }
                    let q = spans[j];
                    if q.project_id == project_id && q.trace_id == sp.trace_id {
                        if q.start_time < start {
                            start = q.start_time;
                        }
                        if q.end_time > end {
                            end = q.end_time;
                        }
                        tokens = tokens + q.total_tokens;
                        cost = cost + q.total_cost_units;
                    }
                    j += 1;
                }
                proof {
                    assert(spans@.take(n as int) =~= spans@);
                    lemma_matching_count_positive(spans@, project_id, tid, i as int);
                }
                result.push(
                    Trace {
                        trace_id: sp.trace_id,
                        start_time: start,
                        end_time: end,
                        total_tokens: tokens,
                        total_cost_units: cost,
                    },
                );
            }
        }
        proof {
            assert(spans@.take(i as int + 1).drop_last() =~= spans@.take(i as int));
            assert(spans@.take(i as int + 1).last() == spans@[i as int]);
        }
        i += 1;
    }
    proof {
        assert(spans@.take(spans@.len() as int) =~= spans@);
    }
    result
}

/// A prefix of well-formed spans is well formed.
pub proof fn lemma_spans_valid_take(s: Seq<Span>, j: int)
    requires
        spans_valid(s),
        0 <= j <= s.len(),
    ensures
        spans_valid(s.take(j)),
{
    assert forall|i: int| 0 <= i < s.take(j).len() implies (#[trigger] s.take(j)[i]).valid() by {
        assert(s.take(j)[i] == s[i]);
    }
}

} // verus!
