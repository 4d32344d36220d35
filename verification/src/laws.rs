//! The laws that the capability contracts guarantee: a counter's total does
//! not depend on how concurrent increments interleave, and the timeseries
//! "aggregated" batching call denotes a different set of samples than the
//! histogram "repeated" batching call with the same arguments.

use vstd::prelude::*;

use crate::stat_types::Histogram;
use crate::stat_types::Timeseries;
use crate::stat_types::sum_of;

verus! {

/// Removing one delta takes exactly its value out of the sum.
proof fn lemma_sum_of_remove(s: Seq<i64>, i: int)
    requires
        0 <= i < s.len(),
    ensures
        sum_of(s.remove(i)) + s[i] == sum_of(s),
    decreases s.len(),
{
    if i == s.len() - 1 {
        assert(s.remove(i) =~= s.drop_last());
    } else {
        assert(s.remove(i).drop_last() =~= s.drop_last().remove(i));
        assert(s.remove(i).last() == s.last());
        lemma_sum_of_remove(s.drop_last(), i);
    }
}

/// A counter fed the same deltas in any order ends at the same total: two
/// delta sequences that are permutations of one another — say, the per-call
/// interleavings seen by two runs of the same set of concurrent increments —
/// have the same arithmetic sum.
pub proof fn lemma_total_ignores_interleaving(a: Seq<i64>, b: Seq<i64>)
    requires
        a.to_multiset() == b.to_multiset(),
    ensures
        sum_of(a) == sum_of(b),
    decreases a.len(),
{
    broadcast use vstd::seq_lib::group_to_multiset_ensures;

    if a.len() == 0 {
        assert(a.to_multiset().len() == a.len());
        assert(b.to_multiset().len() == b.len());
    } else {
        let x: i64 = a.last();
        assert(a.contains(x));
        assert(b.to_multiset().count(x) > 0);
        assert(b.contains(x));
        let j: int = choose|j: int| 0 <= j < b.len() && b[j] == x;
        assert(a.drop_last() =~= a.remove(a.len() - 1));
        assert(a.drop_last().to_multiset() == a.to_multiset().remove(x));
        assert(b.remove(j).to_multiset() == b.to_multiset().remove(x));
        lemma_total_ignores_interleaving(a.drop_last(), b.remove(j));
        lemma_sum_of_remove(b, j);
    }
}

/// The total of all sample values that a timeseries log stands for: each
/// `(value, nsamples)` event contributes `value`, the SUM of its samples.
pub open spec fn log_sample_sum(log: Seq<(i64, u32)>) -> int
    decreases log.len(),
{
    if log.len() == 0 {
        0
    } else {
        log_sample_sum(log.drop_last()) + log.last().0
    }
}

/// The number of samples that a timeseries log stands for: each
/// `(value, nsamples)` event contributes `nsamples` samples.
pub open spec fn log_sample_count(log: Seq<(i64, u32)>) -> nat
    decreases log.len(),
{
    if log.len() == 0 {
        0
    } else {
        log_sample_count(log.drop_last()) + log.last().1 as nat
    }
}

/// `Timeseries::add_value_aggregated(value, nsamples)` and
/// `Histogram::add_repeated_value(value, nsamples)` are observationally
/// different recordings of the same arguments. Both add `nsamples` samples,
/// but the timeseries samples SUM to `value`, while the histogram samples
/// EACH EQUAL `value` and so sum to `nsamples * value`; whenever the value
/// is nonzero and the sample count is not one, those two sample sets cannot
/// be the same.
///
/// The preconditions on the states are exactly what the two batching calls
/// ensure; the lemma therefore applies to the states before and after any
/// such pair of calls.
pub proof fn lemma_aggregated_differs_from_repeated<T: Timeseries, H: Histogram>(
    ts_pre: T,
    ts_post: T,
    h_pre: H,
    h_post: H,
    value: i64,
    nsamples: u32,
)
    requires
        ts_post.log() == ts_pre.log().push((value, nsamples)),
        h_post.count_of(value) == h_pre.count_of(value) + nsamples,
        value != 0,
        nsamples != 1,
    ensures
        log_sample_sum(ts_post.log()) == log_sample_sum(ts_pre.log()) + value,
        log_sample_count(ts_post.log()) == log_sample_count(ts_pre.log()) + nsamples,
        (h_post.count_of(value) - h_pre.count_of(value)) * value == nsamples * value,
        log_sample_sum(ts_post.log()) - log_sample_sum(ts_pre.log()) != (h_post.count_of(value)
            - h_pre.count_of(value)) * value,
{
    assert(ts_post.log().drop_last() =~= ts_pre.log());
    assert(ts_post.log().last() == (value, nsamples));
    assert(nsamples * value != value) by (nonlinear_arith)
        requires
            value != 0,
            nsamples != 1,
    ;
}

} // verus!
