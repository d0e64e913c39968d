//! Counters, latency figures and quality measures of a run.

pub mod errors;
pub mod sequence;
pub mod snapshot;

pub use errors::{ErrorCount, ErrorCounter};
pub use sequence::SequenceTracker;
pub use snapshot::{SnapshotText, StatsSnapshot};
