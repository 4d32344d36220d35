//! Reference fakes: one in-memory implementation of each stat capability.
//!
//! Real metrics backends live outside this crate; the fakes exist so that
//! the capability contracts are demonstrably implementable and so that
//! instrumented code can be exercised in tests. Each fake records exactly
//! the abstract model that its capability trait promises.

use vstd::prelude::*;

use crate::stat_types::Counter;
use crate::stat_types::Histogram;
use crate::stat_types::Timeseries;

verus! {

/// A `Counter` that keeps the running sum of every delta it has accepted.
pub struct FakeCounter {
    sum: i64,
}

impl FakeCounter {
    /// A fresh counter with a total of zero.
    pub fn new() -> (counter: FakeCounter)
        ensures
            counter.total() == 0,
    {
        FakeCounter { sum: 0 }
    }

    /// The running total, as the stored 64-bit value.
    pub fn value(&self) -> (v: i64)
        ensures
            v == self.total(),
    {
        self.sum
    }
}

impl Counter for FakeCounter {
    closed spec fn total(&self) -> int {
        self.sum as int
    }

    fn increment_value(&mut self, value: i64) {
        self.sum = self.sum + value;
    }
}

/// A `Timeseries` that keeps the flat list of `(value, nsamples)` recording
/// events, in call order.
pub struct FakeTimeseries {
    entries: Vec<(i64, u32)>,
}

impl FakeTimeseries {
    /// A fresh timeseries with an empty log.
    pub fn new() -> (ts: FakeTimeseries)
        ensures
            ts.log() == Seq::<(i64, u32)>::empty(),
    {
        FakeTimeseries { entries: Vec::new() }
    }

    /// How many recording events the log holds.
    pub fn len(&self) -> (n: usize)
        ensures
            n == self.log().len(),
    {
        self.entries.len()
    }

    /// The `i`-th recording event, oldest first.
    pub fn entry(&self, i: usize) -> (e: (i64, u32))
        requires
            i < self.log().len(),
        ensures
            e == self.log()[i as int],
    {
        self.entries[i]
    }
}

impl Timeseries for FakeTimeseries {
    closed spec fn log(&self) -> Seq<(i64, u32)> {
        self.entries@
    }

    fn add_value(&mut self, value: i64) {
        self.entries.push((value, 1));
    }

    fn add_value_aggregated(&mut self, value: i64, nsamples: u32) {
        self.entries.push((value, nsamples));
    }
}

/// How many samples of `value` the bucket list `s` records in all.
spec fn bucket_count(s: Seq<(i64, u64)>, value: i64) -> nat
    decreases s.len(),
{
    if s.len() == 0 {
        0
    } else {
        (if s.last().0 == value {
            s.last().1 as nat
        } else {
            0
        }) + bucket_count(s.drop_last(), value)
    }
}

/// A `Histogram` that records buckets as a mapping from sample value to
/// occurrence count, kept as a list of `(value, count)` pairs with each
/// value appearing at most once.
pub struct FakeHistogram {
    buckets: Vec<(i64, u64)>,
}

impl FakeHistogram {
    #[verifier::type_invariant]
    spec fn wf(self) -> bool {
        forall|i: int, j: int|
            0 <= i < j < self.buckets@.len() ==> self.buckets@[i].0 != self.buckets@[j].0
    }

    /// A fresh histogram with every bucket empty.
    pub fn new() -> (h: FakeHistogram)
        ensures
            forall|v: i64| h.count_of(v) == 0,
    {
        let h = FakeHistogram { buckets: Vec::new() };
        proof {
            assert(forall|v: i64| bucket_count(h.buckets@, v) == 0);
        }
        h
    }

    /// The occurrence count in the bucket for `value`.
    pub fn count_value(&self, value: i64) -> (count: u64)
        ensures
            count == self.count_of(value),
    {
        proof {
            use_type_invariant(&*self);
        }
        let n: usize = self.buckets.len();
        let mut i: usize = 0;
        while i < n
            invariant
                n == self.buckets@.len(),
                0 <= i <= n,
                forall|j: int| 0 <= j < i ==> self.buckets@[j].0 != value,
                self.wf(),
            decreases n - i,
        {
            let pair = self.buckets[i];
            if pair.0 == value {
                proof {
                    lemma_bucket_count_unique(self.buckets@, value, i as int);
                }
                return pair.1;
            }
            i = i + 1;
        }
        proof {
            lemma_bucket_count_absent(self.buckets@, value);
        }
        0
    }
}

impl Histogram for FakeHistogram {
    closed spec fn count_of(&self, value: i64) -> nat {
        bucket_count(self.buckets@, value)
    }

    fn add_value(&mut self, value: i64) {
        self.add_repeated_value(value, 1);
    }

    fn add_repeated_value(&mut self, value: i64, nsamples: u32) {
        proof {
            use_type_invariant(&*self);
        }
        let ghost pre = self.buckets@;
        let mut scratch: Vec<(i64, u64)> = Vec::new();
        core::mem::swap(&mut self.buckets, &mut scratch);
        let n: usize = scratch.len();
        let mut i: usize = 0;
        while i < n && scratch[i].0 != value
            invariant
                n == scratch@.len(),
                0 <= i <= n,
                forall|j: int| 0 <= j < i ==> scratch@[j].0 != value,
                scratch@ == pre,
            decreases n - i,
        {
            i = i + 1;
        }
        if i < n {
            proof {
                lemma_bucket_count_unique(pre, value, i as int);
            }
            let merged: u64 = scratch[i].1 + nsamples as u64;
            scratch[i] = (value, merged);
            proof {
                assert(forall|j: int| 0 <= j < pre.len() ==> scratch@[j].0 == pre[j].0);
                lemma_bucket_count_update(pre, i as int, (value, merged), value);
                assert forall|w: i64|
                    w != value implies bucket_count(scratch@, w) == bucket_count(pre, w) by {
                    lemma_bucket_count_update(pre, i as int, (value, merged), w);
                }
            }
        } else {
            proof {
                lemma_bucket_count_absent(pre, value);
            }
            scratch.push((value, nsamples as u64));
            proof {
                assert(scratch@.drop_last() =~= pre);
                assert(forall|w: i64|
                    w != value ==> bucket_count(scratch@, w) == bucket_count(pre, w));
            }
        }
        core::mem::swap(&mut self.buckets, &mut scratch);
    }
}

/// If no entry of `s` is a bucket for `value`, the count for `value` is zero.
proof fn lemma_bucket_count_absent(s: Seq<(i64, u64)>, value: i64)
    requires
        forall|j: int| 0 <= j < s.len() ==> s[j].0 != value,
    ensures
        bucket_count(s, value) == 0,
    decreases s.len(),
{
    if s.len() > 0 {
        lemma_bucket_count_absent(s.drop_last(), value);
    }
}

/// If the entries of `s` hold pairwise distinct values and entry `i` is the
/// bucket for `value`, the count for `value` is exactly that entry's count.
proof fn lemma_bucket_count_unique(s: Seq<(i64, u64)>, value: i64, i: int)
    requires
        forall|p: int, q: int| 0 <= p < q < s.len() ==> s[p].0 != s[q].0,
        0 <= i < s.len(),
        s[i].0 == value,
    ensures
        bucket_count(s, value) == s[i].1,
    decreases s.len(),
{
    if i == s.len() - 1 {
        lemma_bucket_count_absent(s.drop_last(), value);
    } else {
        lemma_bucket_count_unique(s.drop_last(), value, i);
    }
}

/// Replacing entry `i` of `s` by `e` moves the count for any `w` by the two
/// entries' contributions to `w`.
proof fn lemma_bucket_count_update(s: Seq<(i64, u64)>, i: int, e: (i64, u64), w: i64)
    requires
        0 <= i < s.len(),
    ensures
        bucket_count(s.update(i, e), w) + (if s[i].0 == w {
            s[i].1 as nat
        } else {
            0
        }) == bucket_count(s, w) + (if e.0 == w {
            e.1 as nat
        } else {
            0
        }),
    decreases s.len(),
{
    let t = s.update(i, e);
    if i == s.len() - 1 {
        assert(t.drop_last() =~= s.drop_last());
    } else {
        assert(t.drop_last() =~= s.drop_last().update(i, e));
        lemma_bucket_count_update(s.drop_last(), i, e, w);
    }
}

} // verus!
