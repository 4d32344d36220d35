use stats_traits::Counter;
use stats_traits::FakeCounter;
use stats_traits::FakeHistogram;
use stats_traits::FakeTimeseries;
use stats_traits::Histogram;
use stats_traits::Timeseries;
use stats_traits::boxed_counter;
use stats_traits::boxed_histogram;
use stats_traits::boxed_timeseries;
use stats_traits::increment_all;

#[test]
fn counter_totals_the_deltas() {
    let mut c = FakeCounter::new();
    assert_eq!(c.value(), 0);
    c.increment_value(5);
    c.increment_value(-3);
    c.increment_value(10);
    assert_eq!(c.value(), 12);
}

#[test]
fn counter_total_can_go_negative() {
    let mut c = FakeCounter::new();
    c.increment_value(-7);
    assert_eq!(c.value(), -7);
}

#[test]
fn counter_handles_extreme_deltas() {
    let mut c = FakeCounter::new();
    c.increment_value(i64::MAX);
    assert_eq!(c.value(), i64::MAX);
    c.increment_value(-1);
    assert_eq!(c.value(), i64::MAX - 1);
}

#[test]
fn increment_all_totals_the_whole_sequence() {
    let mut c = FakeCounter::new();
    c.increment_value(100);
    increment_all(&mut c, &vec![1, 2, 3, -4]);
    assert_eq!(c.value(), 102);
}

#[test]
fn increment_all_of_nothing_changes_nothing() {
    let mut c = FakeCounter::new();
    c.increment_value(9);
    increment_all(&mut c, &vec![]);
    assert_eq!(c.value(), 9);
}

#[test]
fn increment_all_order_does_not_matter() {
    let mut a = FakeCounter::new();
    let mut b = FakeCounter::new();
    increment_all(&mut a, &vec![5, -3, 10, 0]);
    increment_all(&mut b, &vec![0, 10, 5, -3]);
    assert_eq!(a.value(), b.value());
}

#[test]
fn timeseries_logs_events_in_order() {
    let mut t = FakeTimeseries::new();
    assert_eq!(t.len(), 0);
    t.add_value(4);
    t.add_value_aggregated(10, 2);
    assert_eq!(t.len(), 2);
    assert_eq!(t.entry(0), (4, 1));
    assert_eq!(t.entry(1), (10, 2));
}

#[test]
fn histogram_fills_buckets() {
    let mut h = FakeHistogram::new();
    h.add_value(5);
    h.add_repeated_value(7, 3);
    assert_eq!(h.count_value(5), 1);
    assert_eq!(h.count_value(7), 3);
    assert_eq!(h.count_value(6), 0);
    assert_eq!(h.count_value(0), 0);
}

#[test]
fn histogram_merges_batches_of_one_value() {
    let mut h = FakeHistogram::new();
    h.add_repeated_value(7, 2);
    h.add_value(7);
    h.add_repeated_value(7, 3);
    assert_eq!(h.count_value(7), 6);
}

#[test]
fn histogram_takes_a_huge_batch() {
    let mut h = FakeHistogram::new();
    h.add_repeated_value(1, u32::MAX);
    h.add_repeated_value(1, u32::MAX);
    assert_eq!(h.count_value(1), 2 * (u32::MAX as u64));
}

#[test]
fn batches_of_zero_samples_count_nothing() {
    let mut h = FakeHistogram::new();
    h.add_repeated_value(9, 0);
    assert_eq!(h.count_value(9), 0);
    let mut t = FakeTimeseries::new();
    t.add_value_aggregated(9, 0);
    assert_eq!(t.entry(0), (9, 0));
}

#[test]
fn aggregated_and_repeated_record_different_samples() {
    // The same arguments mean "3 samples summing to 30" to a timeseries and
    // "3 samples of 30 each" to a histogram.
    let mut t = FakeTimeseries::new();
    t.add_value_aggregated(30, 3);
    let mut h = FakeHistogram::new();
    h.add_repeated_value(30, 3);

    // The timeseries recorded samples summing to 30; the histogram recorded
    // samples summing to 3 * 30.
    let (ts_sum, ts_samples) = t.entry(0);
    assert_eq!((ts_sum, ts_samples), (30, 3));
    let hist_sum = h.count_value(30) as i64 * 30;
    let hist_samples = h.count_value(30);
    assert_eq!(hist_sum, 90);
    assert_eq!(hist_samples, 3);
    assert_ne!(ts_sum, hist_sum);
}

#[test]
fn handles_do_not_touch_the_wrapped_state() {
    let mut c = FakeCounter::new();
    c.increment_value(5);
    let c_handle = boxed_counter(c);
    assert_eq!(c_handle.value(), 5);

    let mut t = FakeTimeseries::new();
    t.add_value(4);
    let t_handle = boxed_timeseries(t);
    assert_eq!(t_handle.len(), 1);
    assert_eq!(t_handle.entry(0), (4, 1));

    let mut h = FakeHistogram::new();
    h.add_value(6);
    let h_handle = boxed_histogram(h);
    assert_eq!(h_handle.count_value(6), 1);
    assert_eq!(h_handle.count_value(5), 0);
}

#[test]
fn handles_forward_every_operation() {
    let mut c_handle = boxed_counter(FakeCounter::new());
    c_handle.increment_value(3);
    c_handle.increment_value(-1);
    assert_eq!(c_handle.value(), 2);

    let mut t_handle = boxed_timeseries(FakeTimeseries::new());
    t_handle.add_value(4);
    t_handle.add_value_aggregated(10, 2);
    assert_eq!(t_handle.len(), 2);
    assert_eq!(t_handle.entry(1), (10, 2));

    let mut h_handle = boxed_histogram(FakeHistogram::new());
    h_handle.add_value(5);
    h_handle.add_repeated_value(7, 3);
    assert_eq!(h_handle.count_value(5), 1);
    assert_eq!(h_handle.count_value(7), 3);
}
