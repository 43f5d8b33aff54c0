//! Time-bounds query: the earliest and latest recorded span start instants
//! of a project, or the empty-state signal when the project has no spans.

use vstd::prelude::*;
use crate::span::{Span, TimeBounds};

verus! {

/// How many spans of the sequence belong to the project.
pub open spec fn project_span_count(s: Seq<Span>, project_id: u128) -> nat
    decreases s.len(),
{
    if s.len() == 0 {
        0
    } else {
        project_span_count(s.drop_last(), project_id) + if s.last().project_id == project_id {
            1nat
        } else {
            0nat
        }
    }
}

/// Earliest start instant over the project's spans; `i64::MAX` when the
/// project has none.
pub open spec fn project_min_start(s: Seq<Span>, project_id: u128) -> int
    decreases s.len(),
{
    if s.len() == 0 {
        i64::MAX as int
    } else {
        let rest = project_min_start(s.drop_last(), project_id);
        if s.last().project_id == project_id && (s.last().start_time as int) < rest {
            s.last().start_time as int
        } else {
            rest
        }
    }
}

/// Latest start instant over the project's spans; `i64::MIN` when the
/// project has none.
pub open spec fn project_max_start(s: Seq<Span>, project_id: u128) -> int
    decreases s.len(),
{
    if s.len() == 0 {
        i64::MIN as int
    } else {
        let rest = project_max_start(s.drop_last(), project_id);
        if s.last().project_id == project_id && (s.last().start_time as int) > rest {
            s.last().start_time as int
        } else {
            rest
        }
    }
}

/// The earliest and latest span start instants recorded for the project.
/// `None` is the empty-state signal of a project without spans — not an
/// error, and never a default-valued pair.
pub fn get_time_bounds(spans: &Vec<Span>, project_id: u128) -> (r: Option<TimeBounds>)
    ensures
        r is None <==> project_span_count(spans@, project_id) == 0,
        r matches Some(tb) ==> {
            &&& tb.min_time as int == project_min_start(spans@, project_id)
            &&& tb.max_time as int == project_max_start(spans@, project_id)
        },
{
    let n = spans.len();
    let mut found = false;
    let mut min_time: i64 = i64::MAX;
    let mut max_time: i64 = i64::MIN;
    let mut i: usize = 0;
    while i < n
        invariant
            n == spans@.len(),
            0 <= i <= n,
            found <==> project_span_count(spans@.take(i as int), project_id) > 0,
            min_time as int == project_min_start(spans@.take(i as int), project_id),
            max_time as int == project_max_start(spans@.take(i as int), project_id),
        decreases n - i,
    {
        proof {
            assert(spans@.take(i as int + 1).drop_last() =~= spans@.take(i as int));
            assert(spans@.take(i as int + 1).last() == spans@[i as int]);
        }
        let sp = spans[i];
        if sp.project_id == project_id {
            found = true;
            if sp.start_time < min_time {
                min_time = sp.start_time;
            }
            if sp.start_time > max_time {
                max_time = sp.start_time;
            }
        }
        i += 1;
    }
    proof {
        assert(spans@.take(n as int) =~= spans@);
    }
    if found {
        Some(TimeBounds { min_time, max_time })
    } else {
        None
    }
}

} // verus!
