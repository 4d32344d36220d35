//! Capability interfaces for emitting instrumentation data (counters,
//! timeseries, histograms) without coupling callers to a concrete metrics
//! backend, together with reference fakes and the laws that the interface
//! contracts guarantee.

mod fakes;
mod laws;
mod stat_types;

pub use fakes::FakeCounter;
pub use fakes::FakeHistogram;
pub use fakes::FakeTimeseries;
pub use laws::lemma_aggregated_differs_from_repeated;
pub use laws::lemma_total_ignores_interleaving;
pub use laws::log_sample_count;
pub use laws::log_sample_sum;
pub use stat_types::Counter;
pub use stat_types::CounterStatic;
pub use stat_types::Histogram;
pub use stat_types::HistogramStatic;
pub use stat_types::Timeseries;
pub use stat_types::TimeseriesStatic;
pub use stat_types::boxed_counter;
pub use stat_types::boxed_histogram;
pub use stat_types::boxed_timeseries;
pub use stat_types::increment_all;
pub use stat_types::sum_of;
