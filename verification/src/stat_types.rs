use vstd::prelude::*;

verus! {

/// Counter is the simplest kind of stat: it behaves as a single number that
/// can be incremented (or decremented) by a signed delta.
///
/// An implementation's state is abstracted as a running total, the
/// mathematical sum of every delta it has accepted so far.
pub trait Counter {
    /// The running total accumulated so far, as an unbounded integer.
    spec fn total(&self) -> int;

    /// Increments the counter by the given amount. The amount may be
    /// negative, which decrements the total.
    ///
    /// The precondition only keeps the new total representable in a
    /// 64-bit accumulator; it is a machine limit, not a semantic one.
    fn increment_value(&mut self, value: i64)
        requires
            i64::MIN <= old(self).total() + value <= i64::MAX,
        ensures
            final(self).total() == old(self).total() + value,
    ;
}

/// Timeseries is a kind of stat whose samples an external aggregator buckets
/// into predefined intervals of time. Example aggregations are average, sum
/// or rate; the choice of aggregation lives behind the interface and is not
/// modeled here.
///
/// An implementation's state is abstracted as the sequence of recording
/// events it has accepted, each a `(value, nsamples)` pair meaning
/// "`nsamples` samples whose values sum to `value`".
pub trait Timeseries {
    /// The recording events accepted so far, oldest first. Each entry
    /// `(value, nsamples)` stands for `nsamples` samples summing to `value`.
    spec fn log(&self) -> Seq<(i64, u32)>;

    /// Adds one sample of the given value to the timeseries.
    fn add_value(&mut self, value: i64)
        ensures
            final(self).log() == old(self).log().push((value, 1u32)),
    ;

    /// Records `nsamples` samples at once, where `value` is the SUM of their
    /// values, not a per-sample value. This lets a hot call site pre-aggregate
    /// client-side and cross the interface once. Note the difference in the
    /// meaning of `value` compared to `Histogram::add_repeated_value`.
    fn add_value_aggregated(&mut self, value: i64, nsamples: u32)
        ensures
            final(self).log() == old(self).log().push((value, nsamples)),
    ;
}

/// Histogram is a kind of stat whose samples an external aggregator buckets
/// by value range. Example aggregations are average, sum or a percentile;
/// bucket boundaries and the choice of aggregation live behind the interface
/// and are not modeled here.
///
/// An implementation's state is abstracted as an occurrence count for every
/// possible sample value: how many samples of that exact value it has
/// accepted so far.
pub trait Histogram {
    /// How many samples equal to `value` have been accepted so far.
    spec fn count_of(&self, value: i64) -> nat;

    /// Adds one sample of the given value to the histogram.
    ///
    /// The precondition only keeps the occurrence count representable in a
    /// 64-bit accumulator; it is a machine limit, not a semantic one.
    fn add_value(&mut self, value: i64)
        requires
            old(self).count_of(value) + 1 <= u64::MAX,
        ensures
            final(self).count_of(value) == old(self).count_of(value) + 1,
            forall|w: i64| w != value ==> final(self).count_of(w) == old(self).count_of(w),
    ;

    /// Records `nsamples` samples at once that ALL EQUAL `value`: the value
    /// is repeated, not summed. This lets a hot call site batch identical
    /// observations and cross the interface once. Note the difference in the
    /// meaning of `value` compared to `Timeseries::add_value_aggregated`.
    fn add_repeated_value(&mut self, value: i64, nsamples: u32)
        requires
            old(self).count_of(value) + nsamples <= u64::MAX,
        ensures
            final(self).count_of(value) == old(self).count_of(value) + nsamples,
            forall|w: i64| w != value ==> final(self).count_of(w) == old(self).count_of(w),
    ;
}

/// The `Counter` operations on a handle to per-thread storage: a slot that
/// resolves, on each call, to the calling thread's own `Counter` instance.
///
/// Resolving the slot and dispatching to the resolved instance is the
/// adapter's job, so a call site keeps the exact syntax of the plain
/// capability. Per-thread state is invisible from other threads and from the
/// verifier alike, so these operations carry no model and no contract; the
/// semantics of each call is that of the same call on the thread's instance.
pub trait CounterStatic {
    /// Increments the calling thread's counter by the given amount.
    fn increment_value(&'static self, value: i64);
}

/// The `Timeseries` operations on a handle to per-thread storage; see
/// `CounterStatic` for the adapter pattern.
pub trait TimeseriesStatic {
    /// Adds one sample of the given value to the calling thread's timeseries.
    fn add_value(&'static self, value: i64);

    /// Records `nsamples` samples summing to `value` on the calling thread's
    /// timeseries; `value` is a SUM, as in `Timeseries::add_value_aggregated`.
    fn add_value_aggregated(&'static self, value: i64, nsamples: u32);
}

/// The `Histogram` operations on a handle to per-thread storage; see
/// `CounterStatic` for the adapter pattern.
pub trait HistogramStatic {
    /// Adds one sample of the given value to the calling thread's histogram.
    fn add_value(&'static self, value: i64);

    /// Records `nsamples` samples all equal to `value` on the calling
    /// thread's histogram; `value` is repeated, as in
    /// `Histogram::add_repeated_value`.
    fn add_repeated_value(&'static self, value: i64, nsamples: u32);
}

/// The arithmetic sum of a sequence of counter deltas.
pub open spec fn sum_of(deltas: Seq<i64>) -> int
    decreases deltas.len(),
{
    if deltas.len() == 0 {
        0
    } else {
        sum_of(deltas.drop_last()) + deltas.last()
    }
}

/// Feeds every delta of `deltas` to the counter, in order. The final total
/// is the arithmetic sum of all the deltas over the starting total —
/// negative deltas included — and, because addition commutes, any reordering
/// of the same deltas ends at the same total (see
/// `lemma_total_ignores_interleaving`).
///
/// The precondition keeps every intermediate total representable in a
/// 64-bit accumulator, as `Counter::increment_value` asks.
pub fn increment_all<C: Counter>(counter: &mut C, deltas: &Vec<i64>)
    requires
        forall|k: int|
            0 <= k <= deltas@.len() ==> i64::MIN <= old(counter).total() + #[trigger] sum_of(
                deltas@.take(k),
            ) <= i64::MAX,
    ensures
        final(counter).total() == old(counter).total() + sum_of(deltas@),
{
    let ghost start: int = counter.total();
    let n: usize = deltas.len();
    let mut i: usize = 0;
    while i < n
        invariant
            n == deltas@.len(),
            0 <= i <= n,
            counter.total() == start + sum_of(deltas@.take(i as int)),
            forall|k: int|
                0 <= k <= deltas@.len() ==> i64::MIN <= start + #[trigger] sum_of(
                    deltas@.take(k),
                ) <= i64::MAX,
        decreases n - i,
    {
        proof {
            assert(deltas@.take(i as int + 1).drop_last() =~= deltas@.take(i as int));
            assert(deltas@.take(i as int + 1).last() == deltas@[i as int]);
            assert(sum_of(deltas@.take(i as int + 1)) == sum_of(deltas@.take(i as int))
                + deltas@[i as int]);
            assert(i64::MIN <= start + sum_of(deltas@.take(i as int + 1)) <= i64::MAX);
        }
        counter.increment_value(deltas[i]);
        i = i + 1;
    }
    proof {
        assert(deltas@.take(n as int) =~= deltas@);
    }
}

/// Wraps a counter into an owned, ownership-erased handle. Creating the
/// handle does not touch the counter's state: the handle's total is exactly
/// the wrapped counter's total.
pub fn boxed_counter<C: Counter>(counter: C) -> (handle: Box<C>)
    ensures
        handle.total() == counter.total(),
{
    Box::new(counter)
}

/// Wraps a timeseries into an owned, ownership-erased handle without
/// recording anything: the handle's log is exactly the wrapped one's log.
pub fn boxed_timeseries<T: Timeseries>(ts: T) -> (handle: Box<T>)
    ensures
        handle.log() == ts.log(),
{
    Box::new(ts)
}

/// Wraps a histogram into an owned, ownership-erased handle without
/// recording anything: every bucket keeps its occurrence count.
pub fn boxed_histogram<H: Histogram>(histogram: H) -> (handle: Box<H>)
    ensures
        forall|v: i64| handle.count_of(v) == histogram.count_of(v),
{
    Box::new(histogram)
}

impl<T: Counter> Counter for Box<T> {
    open spec fn total(&self) -> int {
        (**self).total()
    }

    fn increment_value(&mut self, value: i64) {
        (**self).increment_value(value);
    }
}

impl<T: Timeseries> Timeseries for Box<T> {
    open spec fn log(&self) -> Seq<(i64, u32)> {
        (**self).log()
    }

    fn add_value(&mut self, value: i64) {
        (**self).add_value(value);
    }

    fn add_value_aggregated(&mut self, value: i64, nsamples: u32) {
        (**self).add_value_aggregated(value, nsamples);
    }
}

impl<T: Histogram> Histogram for Box<T> {
    open spec fn count_of(&self, value: i64) -> nat {
        (**self).count_of(value)
    }

    fn add_value(&mut self, value: i64) {
        (**self).add_value(value);
    }

    fn add_repeated_value(&mut self, value: i64, nsamples: u32) {
        (**self).add_repeated_value(value, nsamples);
    }
}

} // verus!
