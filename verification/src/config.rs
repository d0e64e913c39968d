//! Settings of a run as they come from the command line.

use crate::float::{Float, ONE_TENTH};
use crate::span::Span;
use vstd::prelude::*;

verus! {

/// The common settings of a run.
pub struct BenchmarkConfig {
    /// Requests per second, shared by all workers; zero or below means unlimited.
    /// Wins over `rate_per_worker`.
    pub rate: Option<Float>,
    /// Requests per second of each worker. Ignored where `rate` is set.
    pub rate_per_worker: Option<Float>,
    /// Workers.
    pub workers: usize,
    /// Duration of the run in seconds.
    pub duration: u64,
    /// Seconds of ramp-up before the measured phase.
    pub ramp_up: Option<u64>,
    /// Rate at the start of the ramp-up.
    pub ramp_start_rate: Float,
    /// Burst allowance, in seconds' worth of tokens.
    pub burst_factor: Float,
    /// Output file for the snapshots.
    pub csv: Option<String>,
    /// Whether raw rows replace the progress lines.
    pub no_progress: bool,
    /// Whether progress is hidden during the ramp-up.
    pub hide_ramp_progress: bool,
    /// Seconds to wait for items in flight at the end; zero disables draining.
    pub drain_timeout: u64,
}

impl BenchmarkConfig {
    /// The settings where nothing is given.
    pub open spec fn is_default(self) -> bool {
        &&& self.rate is None
        &&& self.rate_per_worker is None
        &&& self.workers == 4
        &&& self.duration == 5
        &&& self.ramp_up is None
        &&& self.ramp_start_rate == (Float { bits: 0 })
        &&& self.burst_factor == (Float { bits: ONE_TENTH })
        &&& self.csv is None
        &&& !self.no_progress
        &&& !self.hide_ramp_progress
        &&& self.drain_timeout == 30
    }

    /// How long items in flight are waited for at the end; none where that is disabled.
    pub fn drain(&self) -> (r: Option<Span>)
        ensures
            r == (if self.drain_timeout == 0 {
                None
            } else {
                Some(Span { secs: self.drain_timeout, nanos: 0 })
            }),
    {
        if self.drain_timeout == 0 {
            None
        } else {
            Some(Span::from_secs(self.drain_timeout))
        }
    }
}

impl Default for BenchmarkConfig {
    fn default() -> (r: BenchmarkConfig)
        ensures
            r.is_default(),
    {
        BenchmarkConfig {
            rate: None,
            rate_per_worker: None,
            workers: 4,
            duration: 5,
            ramp_up: None,
            ramp_start_rate: Float { bits: 0 },
            burst_factor: Float { bits: ONE_TENTH },
            csv: None,
            no_progress: false,
            hide_ramp_progress: false,
            drain_timeout: 30,
        }
    }
}

/// The settings where nothing is given, and how long a run waits for items in flight: as long
/// as the setting says, and not at all where that is zero.
pub proof fn law_settings(config: BenchmarkConfig, drain: Option<Span>, r: BenchmarkConfig)
    ensures
        call_ensures(BenchmarkConfig::drain, (&config,), drain) ==> {
            &&& drain is None <==> config.drain_timeout == 0
            &&& drain matches Some(span) ==> span.secs == config.drain_timeout && span.nanos == 0
        },
        call_ensures(<BenchmarkConfig as Default>::default, (), r) ==> {
            &&& r.rate is None
            &&& r.rate_per_worker is None
            &&& r.workers == 4
            &&& r.duration == 5
            &&& r.ramp_up is None
            &&& r.ramp_start_rate.bits == 0
            &&& r.burst_factor.bits == 0x3fb9_9999_9999_999a
            &&& r.csv is None
            &&& !r.no_progress
            &&& !r.hide_ramp_progress
            &&& r.drain_timeout == 30
        },
{
}

} // verus!
