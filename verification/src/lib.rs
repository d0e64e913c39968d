//! Load testing at a controlled rate.
//!
//! The library holds the decisions of a load test: token buckets, the workers of three test
//! patterns, the order in which a run proceeds, counters, and the text of reports. It reads
//! no clock but for timestamps, starts no task and opens no file: the caller performs what
//! the library asks for and reports what became of it.
//!
//! - [`patterns`]: request/response, producer/consumer, submit and poll
//! - [`metrics`]: error counts, sequence tracking, snapshots
//! - [`rate`]: token buckets, per worker and shared
//! - [`time_sync`]: fast timestamps
//! - [`output`]: writers of snapshots
//! - [`logging`], [`filter`]: logging setup, and which filters it can read
//! - [`config`]: settings from the command line
//! - [`float`], [`span`], [`text`], [`sums`]: fractional quantities, lengths of time, text, sums

pub mod config;
pub mod error;
pub mod filter;
pub mod float;
pub mod logging;
pub mod metrics;
pub mod output;
pub mod patterns;
pub mod rate;
pub mod span;
pub mod sums;
pub mod text;
pub mod time_sync;

pub use config::BenchmarkConfig;
pub use error::FrameworkError;
pub use float::Float;
pub use metrics::{ErrorCount, ErrorCounter, SequenceTracker, SnapshotText, StatsSnapshot};
pub use output::OutputWriter;
pub use patterns::async_task::AsyncTaskBenchmark;
pub use patterns::producer_consumer::ProducerConsumerBenchmark;
pub use patterns::request::Benchmark;
pub use patterns::work::{
    AsyncTaskResults, BenchmarkResults, BenchmarkSummary, ConsumerRecorder, PollResult,
    ProducerConsumerResults, WorkResult,
};
pub use rate::{DynamicRateController, RateController, SharedRateController};
pub use span::Span;
pub use time_sync::{latency_ns, now_unix_ns_estimate};
