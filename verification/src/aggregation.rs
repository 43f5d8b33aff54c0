//! Aggregation model: the reducers applied to the per-trace values within
//! one bucket, and their evaluation over a sequence of values.
//!
//! An empty bucket always aggregates to zero, whatever the reducer: that is
//! the gap-fill default of the series builder.

use vstd::prelude::*;
use vstd::arithmetic::div_mod::{
    lemma_div_is_ordered, lemma_div_pos_is_pos, lemma_fundamental_div_mod_converse,
};

verus! {

/// Reducer applied to the per-trace values within one bucket.
#[derive(Clone, Copy, PartialEq, Eq, Structural, Debug)]
pub enum Aggregation {
    /// Sum of the bucket's values.
    Sum,
    /// Arithmetic mean of the bucket's values, rounded toward zero.
    Average,
    /// Smallest of the bucket's values.
    Minimum,
    /// Largest of the bucket's values.
    Maximum,
    /// Count of distinct traces in the bucket.
    CountDistinct,
    /// The given percentile, in whole percent from 0 to 100, of the
    /// bucket's values: the value at rank `(p * (n - 1)) / 100` of the
    /// ascending order.
    Percentile(u64),
}

impl Aggregation {
    /// A percentile selector must name a percent between 0 and 100.
    pub open spec fn valid(self) -> bool {
        match self {
            Aggregation::Percentile(p) => p <= 100,
            _ => true,
        }
    }
}

/// Sum of a sequence of values.
pub open spec fn seq_sum(v: Seq<int>) -> int
    decreases v.len(),
{
    if v.len() == 0 {
        0
    } else {
        seq_sum(v.drop_last()) + v.last()
    }
}

/// Smallest value of the sequence; `i64::MAX` when it is empty.
pub open spec fn seq_min(v: Seq<int>) -> int
    decreases v.len(),
{
    if v.len() == 0 {
        i64::MAX as int
    } else {
        let rest = seq_min(v.drop_last());
        if v.last() < rest {
            v.last()
        } else {
            rest
        }
    }
}

/// Largest value of the sequence; `i64::MIN` when it is empty.
pub open spec fn seq_max(v: Seq<int>) -> int
    decreases v.len(),
{
    if v.len() == 0 {
        i64::MIN as int
    } else {
        let rest = seq_max(v.drop_last());
        if v.last() > rest {
            v.last()
        } else {
            rest
        }
    }
}

/// `x` placed before the first element it does not exceed.
pub open spec fn insert_sorted(x: int, v: Seq<int>) -> Seq<int>
    decreases v.len(),
{
    if v.len() == 0 {
        seq![x]
    } else if x <= v[0] {
        seq![x] + v
    } else {
        seq![v[0]] + insert_sorted(x, v.drop_first())
    }
}

/// The values of the sequence in ascending order, by repeated insertion.
pub open spec fn sorted_values(v: Seq<int>) -> Seq<int>
    decreases v.len(),
{
    if v.len() == 0 {
        Seq::empty()
    } else {
        insert_sorted(v.last(), sorted_values(v.drop_last()))
    }
}

/// Rank of the `p`-th percentile among `n` ascending values.
pub open spec fn percentile_index(p: int, n: int) -> int {
    (p * (n - 1)) / 100
}

/// What a reducer yields over the values of one bucket; zero when the
/// bucket is empty.
pub open spec fn aggregate_spec(agg: Aggregation, v: Seq<int>) -> int {
    if v.len() == 0 {
        0
    } else {
        match agg {
            Aggregation::Sum => seq_sum(v),
            Aggregation::Average => seq_sum(v) / (v.len() as int),
            Aggregation::Minimum => seq_min(v),
            Aggregation::Maximum => seq_max(v),
            Aggregation::CountDistinct => v.len() as int,
            Aggregation::Percentile(p) => sorted_values(v)[percentile_index(
                p as int,
                v.len() as int,
            )],
        }
    }
}

/// The mathematical values of a sequence of machine integers.
pub open spec fn to_int_seq(v: Seq<i64>) -> Seq<int> {
    Seq::new(v.len(), |i: int| v[i] as int)
}

/// With values at least zero, a prefix sums to at most the whole sequence.
pub proof fn lemma_seq_sum_prefix(v: Seq<int>, j: int)
    requires
        forall|i: int| 0 <= i < v.len() ==> 0 <= #[trigger] v[i],
        0 <= j <= v.len(),
    ensures
        seq_sum(v.take(j)) <= seq_sum(v),
    decreases v.len() - j,
{
    if j == v.len() {
        assert(v.take(j) =~= v);
    } else {
        lemma_seq_sum_prefix(v, j + 1);
        assert(v.take(j + 1).drop_last() =~= v.take(j));
        assert(v.take(j + 1).last() == v[j]);
    }
}

/// Insertion grows the sequence by exactly one value.
pub proof fn lemma_insert_sorted_len(x: int, v: Seq<int>)
    ensures
        insert_sorted(x, v).len() == v.len() + 1,
    decreases v.len(),
{
    if v.len() > 0 && !(x <= v[0]) {
        lemma_insert_sorted_len(x, v.drop_first());
    }
}

/// Sorting keeps the number of values.
pub proof fn lemma_sorted_values_len(v: Seq<int>)
    ensures
        sorted_values(v).len() == v.len(),
    decreases v.len(),
{
    if v.len() > 0 {
        lemma_sorted_values_len(v.drop_last());
        lemma_insert_sorted_len(v.last(), sorted_values(v.drop_last()));
    }
}

/// The percentile rank of a valid percent lies within the values.
pub proof fn lemma_percentile_index_in_range(p: int, n: int)
    requires
        0 <= p <= 100,
        1 <= n,
    ensures
        0 <= percentile_index(p, n) < n,
{
    vstd::arithmetic::mul::lemma_mul_inequality(p, 100, n - 1);
    lemma_div_pos_is_pos(p * (n - 1), 100);
    lemma_div_is_ordered(p * (n - 1), 100 * (n - 1), 100);
    lemma_fundamental_div_mod_converse(100 * (n - 1), 100, n - 1, 0);
    assert(100 * (n - 1) == (n - 1) * 100) by (nonlinear_arith);
    assert(0 <= p * (n - 1)) by (nonlinear_arith)
        requires
            0 <= p && 1 <= n,
    ;
}

/// Inserting at the first position whose value `x` does not exceed is the
/// same as splicing `x` in at that position.
proof fn lemma_insert_sorted_at(x: int, v: Seq<int>, idx: int)
    requires
        0 <= idx <= v.len(),
        forall|j: int| 0 <= j < idx ==> #[trigger] v[j] < x,
        idx < v.len() ==> x <= v[idx],
    ensures
        insert_sorted(x, v) =~= v.insert(idx, x),
    decreases idx,
{
    if idx == 0 {
    } else {
        assert forall|j: int| 0 <= j < idx - 1 implies #[trigger] v.drop_first()[j] < x by {
            assert(v.drop_first()[j] == v[j + 1]);
        }
        lemma_insert_sorted_at(x, v.drop_first(), idx - 1);
    }
}

/// Sum the values of one bucket.
fn sum_values(values: &Vec<i64>) -> (r: i64)
    requires
        forall|i: int| 0 <= i < values@.len() ==> 0 <= #[trigger] values@[i],
        seq_sum(to_int_seq(values@)) <= i64::MAX,
    ensures
        r as int == seq_sum(to_int_seq(values@)),
        r >= 0,
{
    let ghost w = to_int_seq(values@);
    let n = values.len();
    let mut acc: i64 = 0;
    let mut j: usize = 0;
    while j < n
        invariant
            n == values@.len(),
            0 <= j <= n,
            w == to_int_seq(values@),
            forall|i: int| 0 <= i < values@.len() ==> 0 <= #[trigger] values@[i],
            seq_sum(w) <= i64::MAX,
            acc as int == seq_sum(w.take(j as int)),
            acc >= 0,
        decreases n - j,
    {
        proof {
            assert(w.take(j as int + 1).drop_last() =~= w.take(j as int));
            assert(w.take(j as int + 1).last() == w[j as int]);
            assert forall|i: int| 0 <= i < w.len() implies 0 <= #[trigger] w[i] by {
                assert(w[i] == values@[i] as int);
            }
            lemma_seq_sum_prefix(w, j as int + 1);
        }
        acc = acc + values[j];
        j += 1;
    }
    proof {
        assert(w.take(n as int) =~= w);
    }
    acc
}

/// The values of one bucket in ascending order.
fn sort_values(values: &Vec<i64>) -> (r: Vec<i64>)
    ensures
        to_int_seq(r@) == sorted_values(to_int_seq(values@)),
        r@.len() == values@.len(),
{
    let ghost w = to_int_seq(values@);
    let n = values.len();
    let mut r: Vec<i64> = Vec::new();
    let mut i: usize = 0;
    while i < n
        invariant
            n == values@.len(),
            0 <= i <= n,
            w == to_int_seq(values@),
            to_int_seq(r@) == sorted_values(w.take(i as int)),
            r@.len() == i,
        decreases n - i,
    {
        let x = values[i];
        let mut idx: usize = 0;
        while idx < r.len() && r[idx] < x
            invariant
                0 <= idx <= r@.len(),
                forall|j: int| 0 <= j < idx ==> #[trigger] r@[j] < x,
            decreases r@.len() - idx,
        {
            idx += 1;
        }
        let ghost old_r = r@;
        r.insert(idx, x);
        proof {
            let s = to_int_seq(old_r);
            assert forall|j: int| 0 <= j < idx as int implies #[trigger] s[j] < x as int by {
                assert(s[j] == old_r[j] as int);
            }
            assert(idx < old_r.len() ==> x as int <= s[idx as int]);
            lemma_insert_sorted_at(x as int, s, idx as int);
            assert(w.take(i as int + 1).drop_last() =~= w.take(i as int));
            assert(w.take(i as int + 1).last() == w[i as int]);
            assert(to_int_seq(r@) =~= s.insert(idx as int, x as int));
        }
        i += 1;
    }
    proof {
        assert(w.take(n as int) =~= w);
        lemma_sorted_values_len(w);
    }
    r
}

/// Apply a reducer to the values of one bucket; an empty bucket yields
/// zero.
pub fn aggregate(agg: Aggregation, values: &Vec<i64>) -> (r: i64)
    requires
        agg.valid(),
        values@.len() <= 0x7fff_ffff,
        forall|i: int| 0 <= i < values@.len() ==> 0 <= #[trigger] values@[i],
        seq_sum(to_int_seq(values@)) <= i64::MAX,
    ensures
        r as int == aggregate_spec(agg, to_int_seq(values@)),
{
    let ghost w = to_int_seq(values@);
    let n = values.len();
    if n == 0 {
        return 0;
    }
    match agg {
        Aggregation::Sum => sum_values(values),
        Aggregation::Average => {
            let total = sum_values(values);
            proof {
                lemma_div_pos_is_pos(total as int, n as int);
                vstd::arithmetic::div_mod::lemma_div_nonincreasing(total as int, n as int);
            }
            ((total as u64) / (n as u64)) as i64
        },
        Aggregation::Minimum => {
            let mut acc: i64 = i64::MAX;
            let mut j: usize = 0;
            while j < n
                invariant
                    n == values@.len(),
                    0 <= j <= n,
                    w == to_int_seq(values@),
                    acc as int == seq_min(w.take(j as int)),
                decreases n - j,
            {
                proof {
                    assert(w.take(j as int + 1).drop_last() =~= w.take(j as int));
                    assert(w.take(j as int + 1).last() == w[j as int]);
                }
                if values[j] < acc {
                    acc = values[j];
                }
                j += 1;
            }
            proof {
                assert(w.take(n as int) =~= w);
            }
            acc
        },
        Aggregation::Maximum => {
            let mut acc: i64 = i64::MIN;
            let mut j: usize = 0;
            while j < n
                invariant
                    n == values@.len(),
                    0 <= j <= n,
                    w == to_int_seq(values@),
                    acc as int == seq_max(w.take(j as int)),
                decreases n - j,
            {
                proof {
                    assert(w.take(j as int + 1).drop_last() =~= w.take(j as int));
                    assert(w.take(j as int + 1).last() == w[j as int]);
                }
                if values[j] > acc {
                    acc = values[j];
                }
                j += 1;
            }
            proof {
                assert(w.take(n as int) =~= w);
            }
            acc
        },
        Aggregation::CountDistinct => n as i64,
        Aggregation::Percentile(p) => {
            let sorted = sort_values(values);
            proof {
                lemma_percentile_index_in_range(p as int, n as int);
            }
            let idx = ((p * (n as u64 - 1)) / 100) as usize;
            let out = sorted[idx];
            proof {
                assert(to_int_seq(sorted@)[idx as int] == sorted@[idx as int] as int);
            }
            out
        },
    }
}

} // verus!
