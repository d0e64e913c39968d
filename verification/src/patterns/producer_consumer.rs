//! Producer/consumer pattern.
//!
//! Producers are rate-controlled; consumers run their own loops and report what they
//! consume through a [`ConsumerRecorder`](crate::patterns::work::ConsumerRecorder).

use crate::float::{
    law_equal_quantities, law_or_zero, lemma_whole, whole, Float, ONE_TENTH, ONE_THOUSAND,
};
use crate::metrics::errors::{
    breaks_down, count_of, counted_in, law_breakdown_adds_up, law_counts_occurrences, occurrences,
    tally, ErrorCount,
};
use crate::metrics::snapshot::StatsSnapshot;
use crate::sums::{lemma_total_equal, total};
use crate::patterns::work::{monus, BenchmarkSummary, ProducerConsumerResults};
use crate::patterns::{clamp_burst, law_burst_range, spec_clamp_burst, DualSnapshotConfig, Role,
    RunStep, Signal, Stage};
use crate::span::Span;
use crate::text::{comma_line, comma_separated, commas, decimal, decimal_text, joined, joined_text,
    law_columns, lemma_decimal_has_no_comma, lemma_no_comma, slices, texts};
use vstd::prelude::*;
use vstd::string::*;

verus! {

// ---------------------------------------------------------------------------
// Producer
// ---------------------------------------------------------------------------

/// Where a producer stands: which action it waits for, and the stage of its attempt.
#[derive(Clone, Copy, Debug, PartialEq, Eq, Structural)]
pub enum ProducerPhase {
    Starting,
    Checking,
    Acquiring,
    Producing(Stage),
    Recording,
    Cleaning,
    Finished,
}

/// What a producer asks for. Figures are recorded for the stage given.
#[derive(Debug)]
pub enum ProducerAction<T> {
    /// Create the state of the producer.
    Init,
    /// Read the running flag.
    CheckRunning,
    /// Wait for a permit of the rate limiter.
    Acquire,
    /// Produce one item.
    Produce,
    /// Count an item as sent.
    RecordSent(Stage),
    /// Record an error with its reason.
    RecordError(Stage, T),
    /// Clean the state of the producer up.
    Cleanup,
    /// End.
    Finish,
}

impl View for ProducerAction<String> {
    type V = ProducerAction<Seq<char>>;

    open spec fn view(&self) -> ProducerAction<Seq<char>> {
        match self {
            ProducerAction::Init => ProducerAction::Init,
            ProducerAction::CheckRunning => ProducerAction::CheckRunning,
            ProducerAction::Acquire => ProducerAction::Acquire,
            ProducerAction::Produce => ProducerAction::Produce,
            ProducerAction::RecordSent(stage) => ProducerAction::RecordSent(*stage),
            ProducerAction::RecordError(stage, reason) => ProducerAction::RecordError(
                *stage,
                reason@,
            ),
            ProducerAction::Cleanup => ProducerAction::Cleanup,
            ProducerAction::Finish => ProducerAction::Finish,
        }
    }
}

/// What became of an action.
#[derive(Debug)]
pub enum ProducerEvent {
    /// The state of the producer is there.
    Initialized,
    /// What the running flag said.
    Running(bool),
    /// The permit came, in this stage of the run.
    Acquired(Stage),
    /// An item was produced, or the reason why not.
    Produced(Result<(), String>),
    /// The figures are recorded.
    Recorded,
    /// The state of the producer is cleaned up.
    CleanedUp,
}

/// The transition that an event causes; none where the producer does not wait for it.
pub open spec fn producer_next(phase: ProducerPhase, event: ProducerEvent) -> Option<
    (ProducerPhase, ProducerAction<Seq<char>>),
> {
    match (phase, event) {
        (ProducerPhase::Starting, ProducerEvent::Initialized) => Some(
            (ProducerPhase::Checking, ProducerAction::CheckRunning),
        ),
        (ProducerPhase::Checking, ProducerEvent::Running(running)) => if running {
            Some((ProducerPhase::Acquiring, ProducerAction::Acquire))
        } else {
            Some((ProducerPhase::Cleaning, ProducerAction::Cleanup))
        },
        (ProducerPhase::Acquiring, ProducerEvent::Acquired(stage)) => Some(
            (ProducerPhase::Producing(stage), ProducerAction::Produce),
        ),
        (ProducerPhase::Producing(stage), ProducerEvent::Produced(result)) => match result {
            Ok(_) => Some((ProducerPhase::Recording, ProducerAction::RecordSent(stage))),
            Err(reason) => Some(
                (ProducerPhase::Recording, ProducerAction::RecordError(stage, reason@)),
            ),
        },
        (ProducerPhase::Recording, ProducerEvent::Recorded) => Some(
            (ProducerPhase::Checking, ProducerAction::CheckRunning),
        ),
        (ProducerPhase::Cleaning, ProducerEvent::CleanedUp) => Some(
            (ProducerPhase::Finished, ProducerAction::Finish),
        ),
        _ => None,
    }
}

/// One producer of a run.
pub struct ProducerWorker {
    phase: ProducerPhase,
}

impl View for ProducerWorker {
    type V = ProducerPhase;

    closed spec fn view(&self) -> ProducerPhase {
        self.phase
    }
}

impl ProducerWorker {
    /// A producer and its first action.
    pub fn start() -> (r: (ProducerWorker, ProducerAction<String>))
        ensures
            r.0@ is Starting,
            r.1 is Init,
    {
        (ProducerWorker { phase: ProducerPhase::Starting }, ProducerAction::Init)
    }

    /// Takes in what became of the last action and names the next; `None`, with the producer
    /// unchanged, where the event does not belong to the last action.
    pub fn step(&mut self, event: ProducerEvent) -> (r: Option<ProducerAction<String>>)
        ensures
            match producer_next(old(self)@, event) {
                Some((phase, action)) => final(self)@ == phase && r is Some && r->0@ == action,
                None => r is None && final(self)@ == old(self)@,
            },
    {
        let (phase, action) = match (self.phase, event) {
            (ProducerPhase::Starting, ProducerEvent::Initialized) => (
                ProducerPhase::Checking,
                ProducerAction::CheckRunning,
            ),
            (ProducerPhase::Checking, ProducerEvent::Running(true)) => (
                ProducerPhase::Acquiring,
                ProducerAction::Acquire,
            ),
            (ProducerPhase::Checking, ProducerEvent::Running(false)) => (
                ProducerPhase::Cleaning,
                ProducerAction::Cleanup,
            ),
            (ProducerPhase::Acquiring, ProducerEvent::Acquired(stage)) => (
                ProducerPhase::Producing(stage),
                ProducerAction::Produce,
            ),
            (ProducerPhase::Producing(stage), ProducerEvent::Produced(Ok(_))) => (
                ProducerPhase::Recording,
                ProducerAction::RecordSent(stage),
            ),
            (ProducerPhase::Producing(stage), ProducerEvent::Produced(Err(reason))) => (
                ProducerPhase::Recording,
                ProducerAction::RecordError(stage, reason),
            ),
            (ProducerPhase::Recording, ProducerEvent::Recorded) => (
                ProducerPhase::Checking,
                ProducerAction::CheckRunning,
            ),
            (ProducerPhase::Cleaning, ProducerEvent::CleanedUp) => (
                ProducerPhase::Finished,
                ProducerAction::Finish,
            ),
            _ => {
                return None;
            },
        };
        self.phase = phase;
        Some(action)
    }
}

// ---------------------------------------------------------------------------
// One producer
// ---------------------------------------------------------------------------

/// What a producer has done so far in one stage of the run, and with its state.
pub struct ProducerTally {
    /// States created.
    pub created: nat,
    /// States cleaned up.
    pub cleaned: nat,
    /// Permits that came.
    pub acquired: nat,
    /// Results of the attempts to produce, in order.
    pub results: Seq<Result<(), String>>,
    /// Items counted as sent.
    pub sent: nat,
    /// Reasons recorded as errors, in order.
    pub failed: Seq<Seq<char>>,
}

impl ProducerTally {
    /// What a producer has done in `stage` after one more event, which came in `phase`, and
    /// the action it led to.
    pub open spec fn after(
        self,
        stage: Stage,
        phase: ProducerPhase,
        event: ProducerEvent,
        action: ProducerAction<Seq<char>>,
    ) -> Self {
        ProducerTally {
            created: if event is Initialized {
                self.created + 1
            } else {
                self.created
            },
            cleaned: if event is CleanedUp {
                self.cleaned + 1
            } else {
                self.cleaned
            },
            acquired: if event == ProducerEvent::Acquired(stage) {
                self.acquired + 1
            } else {
                self.acquired
            },
            results: match event {
                ProducerEvent::Produced(result) => if phase == ProducerPhase::Producing(stage) {
                    self.results.push(result)
                } else {
                    self.results
                },
                _ => self.results,
            },
            sent: if action == ProducerAction::<Seq<char>>::RecordSent(stage) {
                self.sent + 1
            } else {
                self.sent
            },
            failed: match action {
                ProducerAction::RecordError(of, reason) => if of == stage {
                    self.failed.push(reason)
                } else {
                    self.failed
                },
                _ => self.failed,
            },
        }
    }
}

/// The producer and what it has done in `stage` after the events, where it accepts them all.
pub open spec fn producer_run(events: Seq<ProducerEvent>, stage: Stage) -> Option<
    (ProducerPhase, ProducerTally),
>
    decreases events.len(),
{
    if events.len() == 0 {
        Some(
            (
                ProducerPhase::Starting,
                ProducerTally {
                    created: 0,
                    cleaned: 0,
                    acquired: 0,
                    results: seq![],
                    sent: 0,
                    failed: seq![],
                },
            ),
        )
    } else {
        match producer_run(events.drop_last(), stage) {
            Some((phase, t)) => match producer_next(phase, events.last()) {
                Some((phase2, action)) => Some(
                    (phase2, t.after(stage, phase, events.last(), action)),
                ),
                None => None,
            },
            None => None,
        }
    }
}

/// How many attempts succeeded.
pub open spec fn produced(results: Seq<Result<(), String>>) -> nat
    decreases results.len(),
{
    if results.len() == 0 {
        0
    } else {
        produced(results.drop_last()) + if results.last() is Ok {
            1nat
        } else {
            0nat
        }
    }
}

/// The reasons of the attempts that failed, in order.
pub open spec fn failures(results: Seq<Result<(), String>>) -> Seq<Seq<char>>
    decreases results.len(),
{
    if results.len() == 0 {
        seq![]
    } else {
        match results.last() {
            Ok(_) => failures(results.drop_last()),
            Err(reason) => failures(results.drop_last()).push(reason@),
        }
    }
}

/// Every attempt has its own permit and is recorded once: as sent where it succeeded, as an
/// error with its reason where it failed.
pub proof fn law_producer_accounts(events: Seq<ProducerEvent>, stage: Stage)
    requires
        producer_run(events, stage) is Some,
    ensures
        ({
            let (phase, t) = producer_run(events, stage)->0;
            &&& t.sent == produced(t.results)
            &&& t.failed == failures(t.results)
            &&& t.results.len() == t.sent + t.failed.len()
            &&& t.acquired == t.results.len() + if phase == ProducerPhase::Producing(stage) {
                1int
            } else {
                0int
            }
        }),
    decreases events.len(),
{
    if events.len() > 0 {
        law_producer_accounts(events.drop_last(), stage);
        let (phase, t) = producer_run(events.drop_last(), stage)->0;
        let (phase2, t2) = producer_run(events, stage)->0;
        if t2.results.len() > t.results.len() {
            assert(t2.results.drop_last() =~= t.results);
        }
    }
}

/// A producer creates its state once, before anything else, and cleans it up once, at the end.
pub proof fn law_producer_lifecycle(events: Seq<ProducerEvent>, stage: Stage)
    requires
        producer_run(events, stage) is Some,
    ensures
        ({
            let (phase, t) = producer_run(events, stage)->0;
            &&& t.created == if phase is Starting {
                0nat
            } else {
                1nat
            }
            &&& t.cleaned == if phase is Finished {
                1nat
            } else {
                0nat
            }
            &&& phase is Starting ==> t.acquired == 0 && t.results.len() == 0
        }),
    decreases events.len(),
{
    if events.len() > 0 {
        law_producer_lifecycle(events.drop_last(), stage);
    }
}

/// Once a producer has seen that the run is over it produces nothing more.
pub proof fn law_producer_stops(
    events: Seq<ProducerEvent>,
    more: Seq<ProducerEvent>,
    stage: Stage,
)
    requires
        producer_run(events.push(ProducerEvent::Running(false)), stage) is Some,
        producer_run(events.push(ProducerEvent::Running(false)) + more, stage) is Some,
    ensures
        ({
            let told = events.push(ProducerEvent::Running(false));
            let (phase, t) = producer_run(told, stage)->0;
            let (phase2, t2) = producer_run(told + more, stage)->0;
            &&& t2.acquired == t.acquired
            &&& t2.results == t.results
            &&& t2.sent == t.sent
            &&& phase2 is Cleaning || phase2 is Finished
        }),
    decreases more.len(),
{
    let told = events.push(ProducerEvent::Running(false));
    if more.len() == 0 {
        assert(told + more =~= told);
        assert(told.drop_last() =~= events);
    } else {
        assert((told + more).drop_last() =~= told + more.drop_last());
        law_producer_stops(events, more.drop_last(), stage);
    }
}

// ---------------------------------------------------------------------------
// All producers of a run
// ---------------------------------------------------------------------------

/// Whether every producer of a run has ended; `runs` are the events of each.
pub open spec fn all_ended(runs: Seq<Seq<ProducerEvent>>) -> bool {
    forall|k: int|
        0 <= k < runs.len() ==> {
            &&& producer_run(#[trigger] runs[k], Stage::Measured) is Some
            &&& (producer_run(runs[k], Stage::Measured)->0).0 is Finished
        }
}

/// What a producer has done in the measured stage.
pub open spec fn measured(events: Seq<ProducerEvent>) -> ProducerTally {
    (producer_run(events, Stage::Measured)->0).1
}

/// Attempts of all producers that succeeded in the measured stage.
pub open spec fn successes(runs: Seq<Seq<ProducerEvent>>) -> nat {
    total(runs, |run: Seq<ProducerEvent>| produced(measured(run).results))
}

/// Attempts of all producers that failed in the measured stage.
pub open spec fn errors(runs: Seq<Seq<ProducerEvent>>) -> nat {
    total(runs, |run: Seq<ProducerEvent>| failures(measured(run).results).len())
}

/// Whether a snapshot counts what all producers recorded in the measured stage.
pub open spec fn snapshot_of(runs: Seq<Seq<ProducerEvent>>, snap: StatsSnapshot) -> bool {
    snap.counts(
        total(runs, |run: Seq<ProducerEvent>| measured(run).sent),
        0,
        total(runs, |run: Seq<ProducerEvent>| measured(run).failed.len()),
    )
}

/// Whether `reasons` are those that all producers recorded in the measured stage, in some
/// order.
pub open spec fn reasons_of(runs: Seq<Seq<ProducerEvent>>, reasons: Seq<Seq<char>>) -> bool {
    &&& reasons.len() == total(runs, |run: Seq<ProducerEvent>| measured(run).failed.len())
    &&& forall|reason: Seq<char>| #[trigger]
        occurrences(reasons, reason) == total(
            runs,
            |run: Seq<ProducerEvent>| occurrences(measured(run).failed, reason),
        )
}

/// Every attempt of the measured stage, of whichever producer, is counted once in the
/// results, as a success or as an error, as long as the attempts can be counted in 64 bits.
pub proof fn law_producer_totals(
    runs: Seq<Seq<ProducerEvent>>,
    snap: StatsSnapshot,
    counts: Seq<ErrorCount>,
    summary: BenchmarkSummary,
)
    requires
        all_ended(runs),
        snapshot_of(runs, snap),
        summary.of_products(snap, counts),
        successes(runs) + errors(runs) <= u64::MAX,
    ensures
        summary.total_ops == successes(runs) + errors(runs),
        summary.successes == successes(runs),
        summary.errors == errors(runs),
{
    lemma_recorded_totals(runs);
}

/// What the producers record adds up to what their attempts returned.
proof fn lemma_recorded_totals(runs: Seq<Seq<ProducerEvent>>)
    requires
        all_ended(runs),
    ensures
        total(runs, |run: Seq<ProducerEvent>| measured(run).sent) == successes(runs),
        total(runs, |run: Seq<ProducerEvent>| measured(run).failed.len()) == errors(runs),
{
    let sent = |run: Seq<ProducerEvent>| measured(run).sent;
    let failed = |run: Seq<ProducerEvent>| measured(run).failed.len();
    let ok = |run: Seq<ProducerEvent>| produced(measured(run).results);
    let wrong = |run: Seq<ProducerEvent>| failures(measured(run).results).len();
    assert forall|k: int| 0 <= k < runs.len() implies #[trigger] sent(runs[k]) == ok(runs[k]) by {
        law_producer_accounts(runs[k], Stage::Measured);
    }
    assert forall|k: int| 0 <= k < runs.len() implies #[trigger] failed(runs[k]) == wrong(
        runs[k],
    ) by {
        law_producer_accounts(runs[k], Stage::Measured);
    }
    lemma_total_equal(runs, sent, ok);
    lemma_total_equal(runs, failed, wrong);
}

/// The breakdown of the results holds every reason that some producer gave in the measured
/// stage, with the number of times, and no other; its counts add up to the errors.
pub proof fn law_producer_breakdown(
    runs: Seq<Seq<ProducerEvent>>,
    snap: StatsSnapshot,
    counts: Seq<ErrorCount>,
    reasons: Seq<Seq<char>>,
    summary: BenchmarkSummary,
    reason: Seq<char>,
)
    requires
        all_ended(runs),
        snapshot_of(runs, snap),
        reasons_of(runs, reasons),
        breaks_down(counts, reasons),
        summary.of_products(snap, counts),
    ensures
        count_of(tally(summary.error_breakdown@), reason) == total(
            runs,
            |run: Seq<ProducerEvent>| occurrences(failures(measured(run).results), reason),
        ),
        counted_in(summary.error_breakdown@) == summary.errors,
{
    let recorded_so = |run: Seq<ProducerEvent>| occurrences(measured(run).failed, reason);
    let returned_so = |run: Seq<ProducerEvent>|
        occurrences(failures(measured(run).results), reason);
    assert forall|k: int| 0 <= k < runs.len() implies #[trigger] recorded_so(runs[k])
        == returned_so(runs[k]) by {
        law_producer_accounts(runs[k], Stage::Measured);
    }
    lemma_total_equal(runs, recorded_so, returned_so);
    assert(occurrences(reasons, reason) == total(runs, recorded_so));
    law_counts_occurrences(reasons, reason);
    law_breakdown_adds_up(counts, reasons);
}

// ---------------------------------------------------------------------------
// Settings
// ---------------------------------------------------------------------------

/// Settings of a producer/consumer run.
///
/// `PR` is the producer, `CO` the consumer, `P` the formatter of progress lines.
pub struct ProducerConsumerBenchmark<PR = (), CO = (), P = ()> {
    pub producers: usize,
    pub consumers: usize,
    /// Target rate of all producers together.
    pub rate: Float,
    /// Time over which the rate rises before the measured phase.
    pub ramp_up: Option<Span>,
    /// Rate at the start of the ramp.
    pub ramp_start_rate: Float,
    /// Burst allowance in seconds' worth of tokens.
    pub burst_factor: Float,
    pub show_ramp_progress: bool,
    pub duration: Span,
    pub csv_path: Option<String>,
    pub show_progress: bool,
    /// The formatter; without one, [`progress_line`] formats.
    pub progress_fn: Option<P>,
    pub producer: Option<PR>,
    pub consumer: Option<CO>,
}

impl<PR, CO, P> ProducerConsumerBenchmark<PR, CO, P> {
    /// There is at least one worker in each role.
    pub open spec fn valid(self) -> bool {
        self.producers >= 1 && self.consumers >= 1
    }

    /// Where the snapshots go.
    pub open spec fn snapshot_config(self) -> DualSnapshotConfig {
        DualSnapshotConfig {
            to_file: self.csv_path is Some,
            show_progress: self.show_progress,
            show_ramp_progress: self.show_ramp_progress,
        }
    }
}

impl ProducerConsumerBenchmark<(), (), ()> {
    /// The settings where nothing is given: one producer, one consumer,
    /// a thousand messages per second, ten seconds.
    pub fn new() -> (r: Self)
        ensures
            r.producers == 1,
            r.consumers == 1,
            !r.rate.is_nan(),
            r.rate.units() == whole(1000),
            r.ramp_up is None,
            r.ramp_start_rate == (Float { bits: 0 }),
            r.burst_factor == (Float { bits: ONE_TENTH }),
            r.show_ramp_progress,
            r.duration == (Span { secs: 10, nanos: 0 }),
            r.csv_path is None,
            r.show_progress,
            r.progress_fn is None,
            r.producer is None,
            r.consumer is None,
            r.valid(),
    {
        proof {
            vstd::arithmetic::power2::lemma2_to64();
            vstd::arithmetic::power2::lemma2_to64_rest();
            lemma_whole(ONE_THOUSAND, 1000, 43);
        }
        ProducerConsumerBenchmark {
            producers: 1,
            consumers: 1,
            rate: Float { bits: ONE_THOUSAND },
            ramp_up: None,
            ramp_start_rate: Float { bits: 0 },
            burst_factor: Float { bits: ONE_TENTH },
            show_ramp_progress: true,
            duration: Span::from_secs(10),
            csv_path: None,
            show_progress: true,
            progress_fn: None,
            producer: None,
            consumer: None,
        }
    }
}

impl Default for ProducerConsumerBenchmark<(), (), ()> {
    fn default() -> (r: Self)
        ensures
            r.producers == 1,
            r.consumers == 1,
            !r.rate.is_nan(),
            r.rate.units() == whole(1000),
            r.ramp_up is None,
            r.ramp_start_rate == (Float { bits: 0 }),
            r.burst_factor == (Float { bits: ONE_TENTH }),
            r.show_ramp_progress,
            r.duration == (Span { secs: 10, nanos: 0 }),
            r.csv_path is None,
            r.show_progress,
            r.progress_fn is None,
            r.producer is None,
            r.consumer is None,
    {
        Self::new()
    }
}

impl<PR, CO, P> ProducerConsumerBenchmark<PR, CO, P> {
    /// Sets the number of producers, at least one.
    pub fn producers(self, n: usize) -> (r: Self)
        ensures
            r == (ProducerConsumerBenchmark {
                producers: if n < 1 {
                    1
                } else {
                    n
                },
                ..self
            }),
    {
        let n: usize = if n < 1 {
            1
        } else {
            n
        };
        ProducerConsumerBenchmark { producers: n, ..self }
    }

    /// Sets the number of consumers, at least one.
    pub fn consumers(self, n: usize) -> (r: Self)
        ensures
            r == (ProducerConsumerBenchmark {
                consumers: if n < 1 {
                    1
                } else {
                    n
                },
                ..self
            }),
    {
        let n: usize = if n < 1 {
            1
        } else {
            n
        };
        ProducerConsumerBenchmark { consumers: n, ..self }
    }

    /// Sets the rate of all producers together.
    pub fn rate(self, rate: Float) -> (r: Self)
        ensures
            r == (ProducerConsumerBenchmark { rate, ..self }),
    {
        ProducerConsumerBenchmark { rate, ..self }
    }

    /// Sets the time over which the rate rises before the measured phase.
    pub fn ramp_up(self, duration: Span) -> (r: Self)
        ensures
            r == (ProducerConsumerBenchmark { ramp_up: Some(duration), ..self }),
    {
        ProducerConsumerBenchmark { ramp_up: Some(duration), ..self }
    }

    /// Sets the rate at the start of the ramp; below zero counts as zero.
    pub fn ramp_start_rate(self, rate: Float) -> (r: Self)
        ensures
            r == (ProducerConsumerBenchmark { ramp_start_rate: rate.spec_or_zero(), ..self }),
    {
        ProducerConsumerBenchmark { ramp_start_rate: rate.or_zero(), ..self }
    }

    /// Sets the burst allowance in seconds' worth of tokens, from one thousandth to one thousand.
    pub fn burst_factor(self, factor: Float) -> (r: Self)
        ensures
            r == (ProducerConsumerBenchmark { burst_factor: spec_clamp_burst(factor), ..self }),
    {
        ProducerConsumerBenchmark { burst_factor: clamp_burst(factor), ..self }
    }

    /// Chooses whether progress is shown during the ramp.
    pub fn show_ramp_progress(self, show: bool) -> (r: Self)
        ensures
            r == (ProducerConsumerBenchmark { show_ramp_progress: show, ..self }),
    {
        ProducerConsumerBenchmark { show_ramp_progress: show, ..self }
    }

    /// Sets the duration of the measured phase.
    pub fn duration(self, duration: Span) -> (r: Self)
        ensures
            r == (ProducerConsumerBenchmark { duration, ..self }),
    {
        ProducerConsumerBenchmark { duration, ..self }
    }

    /// Sets the duration of the measured phase in seconds.
    pub fn duration_secs(self, secs: u64) -> (r: Self)
        ensures
            r == (ProducerConsumerBenchmark { duration: Span { secs, nanos: 0 }, ..self }),
    {
        ProducerConsumerBenchmark { duration: Span::from_secs(secs), ..self }
    }

    /// Sets the output file.
    pub fn csv(self, path: String) -> (r: Self)
        ensures
            r == (ProducerConsumerBenchmark { csv_path: Some(path), ..self }),
    {
        ProducerConsumerBenchmark { csv_path: Some(path), ..self }
    }

    /// Chooses whether progress is shown.
    pub fn progress(self, show: bool) -> (r: Self)
        ensures
            r == (ProducerConsumerBenchmark { show_progress: show, ..self }),
    {
        ProducerConsumerBenchmark { show_progress: show, ..self }
    }

    /// Sets the formatter of progress lines.
    pub fn on_progress<P2>(self, f: P2) -> (r: ProducerConsumerBenchmark<PR, CO, P2>)
        ensures
            r.progress_fn == Some(f),
            r.producers == self.producers,
            r.consumers == self.consumers,
            r.rate == self.rate,
            r.ramp_up == self.ramp_up,
            r.ramp_start_rate == self.ramp_start_rate,
            r.burst_factor == self.burst_factor,
            r.show_ramp_progress == self.show_ramp_progress,
            r.duration == self.duration,
            r.csv_path == self.csv_path,
            r.show_progress == self.show_progress,
            r.producer == self.producer,
            r.consumer == self.consumer,
    {
        ProducerConsumerBenchmark {
            producers: self.producers,
            consumers: self.consumers,
            rate: self.rate,
            ramp_up: self.ramp_up,
            ramp_start_rate: self.ramp_start_rate,
            burst_factor: self.burst_factor,
            show_ramp_progress: self.show_ramp_progress,
            duration: self.duration,
            csv_path: self.csv_path,
            show_progress: self.show_progress,
            progress_fn: Some(f),
            producer: self.producer,
            consumer: self.consumer,
        }
    }

    /// Sets the producer.
    pub fn producer<PR2>(self, producer: PR2) -> (r: ProducerConsumerBenchmark<PR2, CO, P>)
        ensures
            r.producer == Some(producer),
            r.producers == self.producers,
            r.consumers == self.consumers,
            r.rate == self.rate,
            r.ramp_up == self.ramp_up,
            r.ramp_start_rate == self.ramp_start_rate,
            r.burst_factor == self.burst_factor,
            r.show_ramp_progress == self.show_ramp_progress,
            r.duration == self.duration,
            r.csv_path == self.csv_path,
            r.show_progress == self.show_progress,
            r.progress_fn == self.progress_fn,
            r.consumer == self.consumer,
    {
        ProducerConsumerBenchmark {
            producers: self.producers,
            consumers: self.consumers,
            rate: self.rate,
            ramp_up: self.ramp_up,
            ramp_start_rate: self.ramp_start_rate,
            burst_factor: self.burst_factor,
            show_ramp_progress: self.show_ramp_progress,
            duration: self.duration,
            csv_path: self.csv_path,
            show_progress: self.show_progress,
            progress_fn: self.progress_fn,
            producer: Some(producer),
            consumer: self.consumer,
        }
    }

    /// Sets the consumer.
    pub fn consumer<CO2>(self, consumer: CO2) -> (r: ProducerConsumerBenchmark<PR, CO2, P>)
        ensures
            r.consumer == Some(consumer),
            r.producers == self.producers,
            r.consumers == self.consumers,
            r.rate == self.rate,
            r.ramp_up == self.ramp_up,
            r.ramp_start_rate == self.ramp_start_rate,
            r.burst_factor == self.burst_factor,
            r.show_ramp_progress == self.show_ramp_progress,
            r.duration == self.duration,
            r.csv_path == self.csv_path,
            r.show_progress == self.show_progress,
            r.progress_fn == self.progress_fn,
            r.producer == self.producer,
    {
        ProducerConsumerBenchmark {
            producers: self.producers,
            consumers: self.consumers,
            rate: self.rate,
            ramp_up: self.ramp_up,
            ramp_start_rate: self.ramp_start_rate,
            burst_factor: self.burst_factor,
            show_ramp_progress: self.show_ramp_progress,
            duration: self.duration,
            csv_path: self.csv_path,
            show_progress: self.show_progress,
            progress_fn: self.progress_fn,
            producer: self.producer,
            consumer: Some(consumer),
        }
    }

    // -----------------------------------------------------------------------
    // Run
    // -----------------------------------------------------------------------

    /// The rate at which producers start: that of the ramp where there is one.
    pub fn start_rate(&self) -> (r: Float)
        ensures
            r == (if self.ramp_up is Some {
                self.ramp_start_rate
            } else {
                self.rate
            }),
    {
        if self.ramp_up.is_some() {
            self.ramp_start_rate
        } else {
            self.rate
        }
    }

    /// Where the snapshots go.
    pub fn snapshots(&self) -> (r: DualSnapshotConfig)
        ensures
            r == self.snapshot_config(),
    {
        DualSnapshotConfig {
            to_file: self.csv_path.is_some(),
            show_progress: self.show_progress,
            show_ramp_progress: self.show_ramp_progress,
        }
    }

    /// The steps of a run.
    pub open spec fn steps(self) -> Seq<RunStep> {
        seq![
            RunStep::Spawn(Role::Producers, self.producers),
            RunStep::Spawn(Role::Consumers, self.consumers),
        ] + (if self.snapshot_config().active() {
            seq![RunStep::SpawnSnapshots]
        } else {
            seq![]
        }) + (match self.ramp_up {
            Some(over) => seq![
                RunStep::Ramp { from: self.ramp_start_rate, to: self.rate, over },
                RunStep::EndRamp,
            ],
            None => seq![],
        }) + seq![
            RunStep::Sleep(self.duration),
            RunStep::Stop(Signal::Running),
            RunStep::Join(Role::Producers),
            RunStep::Join(Role::Consumers),
        ] + (if self.snapshot_config().active() {
            seq![RunStep::JoinSnapshots]
        } else {
            seq![]
        })
    }

    /// The steps of a run.
    pub fn run_plan(&self) -> (r: Vec<RunStep>)
        ensures
            r@ == self.steps(),
    {
        let active: bool = self.snapshots().is_active();
        let mut plan: Vec<RunStep> = Vec::new();
        plan.push(RunStep::Spawn(Role::Producers, self.producers));
        plan.push(RunStep::Spawn(Role::Consumers, self.consumers));
        if active {
            plan.push(RunStep::SpawnSnapshots);
        }
        match self.ramp_up {
            Some(over) => {
                plan.push(RunStep::Ramp { from: self.ramp_start_rate, to: self.rate, over });
                plan.push(RunStep::EndRamp);
            },
            None => {},
        }
        plan.push(RunStep::Sleep(self.duration));
        plan.push(RunStep::Stop(Signal::Running));
        plan.push(RunStep::Join(Role::Producers));
        plan.push(RunStep::Join(Role::Consumers));
        if active {
            plan.push(RunStep::JoinSnapshots);
        }
        assert(plan@ =~= self.steps());
        plan
    }

    /// The results of a run, from the last snapshots of producers and consumers in the
    /// measured stage.
    pub fn results(
        self,
        produced: &StatsSnapshot,
        consumed: &StatsSnapshot,
        errors: Vec<ErrorCount>,
    ) -> (r: ProducerConsumerResults)
        ensures
            r.produced.of_products(*produced, errors@),
            r.consumed.of_receipts(*consumed, Seq::empty()),
            r.producers == self.producers,
            r.consumers == self.consumers,
            r.target_rate == self.rate,
            r.duration == self.duration,
            r.csv_path == self.csv_path,
    {
        ProducerConsumerResults {
            produced: BenchmarkSummary::from_snapshot_produced(produced, errors),
            consumed: BenchmarkSummary::from_snapshot_recv_only(consumed, Vec::new()),
            producers: self.producers,
            consumers: self.consumers,
            target_rate: self.rate,
            duration: self.duration,
            csv_path: self.csv_path,
        }
    }
}

/// A run starts all its workers before it measures, raises the rate to the target and ends the
/// ramp right before that where it ramps, clears the flag once the measured time is over, and
/// waits for every worker before it ends.
pub proof fn law_producer_consumer_run_in_order<PR, CO, P>(b: ProducerConsumerBenchmark<PR, CO, P>)
    ensures
        b.steps()[0] == RunStep::Spawn(Role::Producers, b.producers),
        b.steps()[1] == RunStep::Spawn(Role::Consumers, b.consumers),
        exists|sleep: int|
            1 < sleep < b.steps().len() - 3
            && #[trigger] b.steps()[sleep] == RunStep::Sleep(b.duration)
            && b.steps()[sleep + 1] == RunStep::Stop(Signal::Running)
            && b.steps()[sleep + 2] == RunStep::Join(Role::Producers)
            && b.steps()[sleep + 3] == RunStep::Join(Role::Consumers)
            && (b.ramp_up matches Some(over) ==> b.steps()[sleep - 2] == (RunStep::Ramp {
                from: b.ramp_start_rate,
                to: b.rate,
                over,
            }) && b.steps()[sleep - 1] == RunStep::EndRamp),
{
    let snapshots: int = if b.snapshot_config().active() {
        1
    } else {
        0
    };
    let ramp: int = if b.ramp_up is Some {
        2
    } else {
        0
    };
    let sleep = 2 + snapshots + ramp;
    assert(b.steps()[sleep] == RunStep::Sleep(b.duration));
}

// ---------------------------------------------------------------------------
// Snapshots
// ---------------------------------------------------------------------------

/// The fractional figures of a row as text.
pub struct RowText {
    pub produce_rate: String,
    pub consume_rate: String,
    pub p50_ms: String,
    pub p95_ms: String,
    pub p99_ms: String,
}

/// The names of the columns.
pub open spec fn header_fields() -> Seq<Seq<char>> {
    seq![
        "timestamp"@,
        "produced"@,
        "consumed"@,
        "in_flight"@,
        "produce_rate"@,
        "consume_rate"@,
        "p50_ms"@,
        "p95_ms"@,
        "p99_ms"@,
    ]
}

/// The header line of the table.
pub fn csv_header() -> (r: String)
    ensures
        r@ == comma_separated(header_fields()),
{
    let mut fields: Vec<String> = Vec::new();
    fields.push("timestamp".to_owned());
    fields.push("produced".to_owned());
    fields.push("consumed".to_owned());
    fields.push("in_flight".to_owned());
    fields.push("produce_rate".to_owned());
    fields.push("consume_rate".to_owned());
    fields.push("p50_ms".to_owned());
    fields.push("p95_ms".to_owned());
    fields.push("p99_ms".to_owned());
    assert(texts(fields@) =~= header_fields());
    comma_line(&fields)
}

/// The fields of a row, from the snapshots of producers and consumers.
pub open spec fn row_fields(produced: StatsSnapshot, consumed: StatsSnapshot, text: RowText) -> Seq<
    Seq<char>,
> {
    seq![
        decimal(produced.timestamp as nat),
        decimal(produced.sent_count as nat),
        decimal(consumed.received_count as nat),
        decimal(monus(produced.sent_count, consumed.received_count) as nat),
        text.produce_rate@,
        text.consume_rate@,
        text.p50_ms@,
        text.p95_ms@,
        text.p99_ms@,
    ]
}

/// The row of the table for a pair of snapshots.
pub fn csv_row(produced: &StatsSnapshot, consumed: &StatsSnapshot, text: &RowText) -> (r: String)
    ensures
        r@ == comma_separated(row_fields(*produced, *consumed, *text)),
{
    let in_flight: u64 = produced.sent_count.saturating_sub(consumed.received_count);
    let mut fields: Vec<String> = Vec::new();
    fields.push(decimal_text(produced.timestamp));
    fields.push(decimal_text(produced.sent_count));
    fields.push(decimal_text(consumed.received_count));
    fields.push(decimal_text(in_flight));
    fields.push(text.produce_rate.clone());
    fields.push(text.consume_rate.clone());
    fields.push(text.p50_ms.clone());
    fields.push(text.p95_ms.clone());
    fields.push(text.p99_ms.clone());
    assert(texts(fields@) =~= row_fields(*produced, *consumed, *text));
    comma_line(&fields)
}

/// Header and rows have the same nine columns, provided the fractional figures are
/// written without commas.
pub proof fn law_rows_match_header(produced: StatsSnapshot, consumed: StatsSnapshot, text: RowText)
    requires
        commas(text.produce_rate@) == 0,
        commas(text.consume_rate@) == 0,
        commas(text.p50_ms@) == 0,
        commas(text.p95_ms@) == 0,
        commas(text.p99_ms@) == 0,
    ensures
        header_fields().len() == 9,
        row_fields(produced, consumed, text).len() == header_fields().len(),
        commas(comma_separated(header_fields())) == 8,
        commas(comma_separated(row_fields(produced, consumed, text))) == 8,
{
    let names = header_fields();
    assert forall|i: int| 0 <= i < names.len() implies commas(#[trigger] names[i]) == 0 by {
        reveal_strlit("timestamp");
        reveal_strlit("produced");
        reveal_strlit("consumed");
        reveal_strlit("in_flight");
        reveal_strlit("produce_rate");
        reveal_strlit("consume_rate");
        reveal_strlit("p50_ms");
        reveal_strlit("p95_ms");
        reveal_strlit("p99_ms");
        lemma_no_comma(names[i]);
    }
    law_columns(names);
    let fields = row_fields(produced, consumed, text);
    assert forall|i: int| 0 <= i < fields.len() implies commas(#[trigger] fields[i]) == 0 by {
        lemma_decimal_has_no_comma(produced.timestamp as nat);
        lemma_decimal_has_no_comma(produced.sent_count as nat);
        lemma_decimal_has_no_comma(consumed.received_count as nat);
        lemma_decimal_has_no_comma(monus(produced.sent_count, consumed.received_count) as nat);
    }
    law_columns(fields);
}

/// The default progress line.
pub fn progress_line(produced: &StatsSnapshot, consumed: &StatsSnapshot, p50_ms: &str) -> (r:
    String)
    ensures
        r@ == joined(
            seq![
                "  "@,
                decimal(produced.sent_count as nat),
                " produced | "@,
                decimal(consumed.received_count as nat),
                " consumed | "@,
                decimal(monus(produced.sent_count, consumed.received_count) as nat),
                " in-flight | p50="@,
                p50_ms@,
                "ms"@,
            ],
        ),
{
    let sent: String = decimal_text(produced.sent_count);
    let received: String = decimal_text(consumed.received_count);
    let in_flight: String = decimal_text(
        produced.sent_count.saturating_sub(consumed.received_count),
    );
    let parts: Vec<&str> = vec![
        "  ",
        sent.as_str(),
        " produced | ",
        received.as_str(),
        " consumed | ",
        in_flight.as_str(),
        " in-flight | p50=",
        p50_ms,
        "ms",
    ];
    assert(slices(parts@) =~= seq![
        "  "@,
        decimal(produced.sent_count as nat),
        " produced | "@,
        decimal(consumed.received_count as nat),
        " consumed | "@,
        decimal(monus(produced.sent_count, consumed.received_count) as nat),
        " in-flight | p50="@,
        p50_ms@,
        "ms"@,
    ]);
    joined_text(parts)
}

// ---------------------------------------------------------------------------
// What a producer asks for
// ---------------------------------------------------------------------------

/// The action that a producer asks for after the events.
pub open spec fn producer_asks(events: Seq<ProducerEvent>) -> ProducerAction<Seq<char>> {
    if events.len() == 0 {
        ProducerAction::Init
    } else {
        (producer_next(
            (producer_run(events.drop_last(), Stage::Measured)->0).0,
            events.last(),
        )->0).1
    }
}

/// Whether an event answers an action.
pub open spec fn producer_answers(action: ProducerAction<Seq<char>>, event: ProducerEvent) -> bool {
    match action {
        ProducerAction::Init => event is Initialized,
        ProducerAction::CheckRunning => event is Running,
        ProducerAction::Acquire => event is Acquired,
        ProducerAction::Produce => event is Produced,
        ProducerAction::RecordSent(_) => event is Recorded,
        ProducerAction::RecordError(_, _) => event is Recorded,
        ProducerAction::Cleanup => event is CleanedUp,
        ProducerAction::Finish => false,
    }
}

/// A new producer asks for its state. A step follows the transition for its event, and where
/// there is none gives nothing and leaves the producer as it is.
pub proof fn law_producer_step(
    w: &mut ProducerWorker,
    event: ProducerEvent,
    r: Option<ProducerAction<String>>,
    new: (ProducerWorker, ProducerAction<String>),
)
    requires
        call_ensures(ProducerWorker::step, (w, event), r),
        call_ensures(ProducerWorker::start, (), new),
    ensures
        r is Some <==> producer_next(old(w)@, event) is Some,
        r is Some ==> final(w)@ == (producer_next(old(w)@, event)->0).0,
        r is Some ==> r->0@ == (producer_next(old(w)@, event)->0).1,
        r is None ==> final(w)@ == old(w)@,
        new.0@ is Starting,
        new.1 is Init,
{
}

/// Actions are seen as they are.
pub proof fn law_producer_actions_are_seen(a: ProducerAction<String>)
    ensures
        a is Init <==> a@ is Init,
        a is CheckRunning <==> a@ is CheckRunning,
        a is Acquire <==> a@ is Acquire,
        a is Produce <==> a@ is Produce,
        a is RecordSent <==> a@ is RecordSent,
        a is RecordError <==> a@ is RecordError,
        a is Cleanup <==> a@ is Cleanup,
        a is Finish <==> a@ is Finish,
        a matches ProducerAction::RecordSent(stage) ==> a@ == ProducerAction::<
            Seq<char>,
        >::RecordSent(stage),
        a matches ProducerAction::RecordError(stage, reason) ==> a@ == ProducerAction::<
            Seq<char>,
        >::RecordError(stage, reason@),
{
}

/// A producer goes on just where it gets an answer to what it asked for.
pub proof fn law_producer_takes_answers(events: Seq<ProducerEvent>, event: ProducerEvent)
    requires
        producer_run(events, Stage::Measured) is Some,
    ensures
        producer_run(events.push(event), Stage::Measured) is Some <==> producer_answers(
            producer_asks(events),
            event,
        ),
{
    assert(events.push(event).drop_last() =~= events);
}

/// What a producer asks for next. It reads the flag before every permit, produces once for every
/// permit, and records what came of it for the stage of that permit; once the flag is cleared it
/// cleans up.
pub proof fn law_producer_asks_next(events: Seq<ProducerEvent>, event: ProducerEvent)
    requires
        producer_run(events.push(event), Stage::Measured) is Some,
    ensures
        ({
            let asked = producer_asks(events);
            let next = producer_asks(events.push(event));
            &&& event is Initialized ==> next is CheckRunning
            &&& event == ProducerEvent::Running(true) ==> next is Acquire
            &&& event == ProducerEvent::Running(false) ==> next is Cleanup
            &&& event is Acquired ==> next is Produce
            &&& event matches ProducerEvent::Produced(result) ==> {
                &&& events.len() >= 1
                &&& events.last() matches ProducerEvent::Acquired(stage) && match result {
                    Ok(_) => next == ProducerAction::<Seq<char>>::RecordSent(stage),
                    Err(reason) => next == ProducerAction::<Seq<char>>::RecordError(stage, reason@),
                }
            }
            &&& event is Recorded ==> next is CheckRunning
            &&& event is CleanedUp ==> next is Finish
        }),
{
    assert(events.push(event).drop_last() =~= events);
    if event is Produced {
        assert(producer_run(events, Stage::Measured) is Some);
        assert(producer_run(events.drop_last(), Stage::Measured) is Some);
    }
}

/// Every setter sets its own setting to what is given, and leaves all others as they are.
pub proof fn law_producer_consumer_setters<PR, CO, P>(
    b: ProducerConsumerBenchmark<PR, CO, P>,
    rate: Float,
    n: usize,
    span: Span,
    secs: u64,
    path: String,
    on: bool,
    r: ProducerConsumerBenchmark<PR, CO, P>,
)
    ensures
        call_ensures(ProducerConsumerBenchmark::<PR, CO, P>::producers, (b, n), r) ==> r == (
        ProducerConsumerBenchmark {
            producers: r.producers,
            ..b
        }) && (n >= 1 ==> r.producers == n) && (n == 0 ==> r.producers == 1),
        call_ensures(ProducerConsumerBenchmark::<PR, CO, P>::consumers, (b, n), r) ==> r == (
        ProducerConsumerBenchmark {
            consumers: r.consumers,
            ..b
        }) && (n >= 1 ==> r.consumers == n) && (n == 0 ==> r.consumers == 1),
        call_ensures(ProducerConsumerBenchmark::<PR, CO, P>::rate, (b, rate), r) ==> r == (
        ProducerConsumerBenchmark {
            rate,
            ..b
        }),
        call_ensures(ProducerConsumerBenchmark::<PR, CO, P>::ramp_up, (b, span), r) ==> r == (
        ProducerConsumerBenchmark {
            ramp_up: Some(span),
            ..b
        }),
        call_ensures(ProducerConsumerBenchmark::<PR, CO, P>::ramp_start_rate, (b, rate), r) ==> r
            == (
        ProducerConsumerBenchmark {
            ramp_start_rate: r.ramp_start_rate,
            ..b
        }) && (rate.bits <= 0x7ff0_0000_0000_0000 ==> r.ramp_start_rate == rate) && (rate.bits
            > 0x7ff0_0000_0000_0000 && rate.bits != 0x8000_0000_0000_0000
            ==> r.ramp_start_rate.bits == 0),
        call_ensures(ProducerConsumerBenchmark::<PR, CO, P>::burst_factor, (b, rate), r) ==> r == (
        ProducerConsumerBenchmark {
            burst_factor: r.burst_factor,
            ..b
        }) && (0x3f50_624d_d2f1_a9fc <= rate.bits <= 0x408f_4000_0000_0000 ==> r.burst_factor
            == rate) && (rate.bits < 0x3f50_624d_d2f1_a9fc || 0x8000_0000_0000_0000 <= rate.bits
            <= 0xfff0_0000_0000_0000 ==> r.burst_factor.bits == 0x3f50_624d_d2f1_a9fc) && (
        0x408f_4000_0000_0000 < rate.bits <= 0x7ff0_0000_0000_0000 ==> r.burst_factor.bits
            == 0x408f_4000_0000_0000) && (0x7ff0_0000_0000_0000 < rate.bits < 0x8000_0000_0000_0000
            || rate.bits > 0xfff0_0000_0000_0000 ==> r.burst_factor == rate),
        call_ensures(ProducerConsumerBenchmark::<PR, CO, P>::show_ramp_progress, (b, on), r) ==> r
            == (
        ProducerConsumerBenchmark {
            show_ramp_progress: on,
            ..b
        }),
        call_ensures(ProducerConsumerBenchmark::<PR, CO, P>::duration, (b, span), r) ==> r == (
        ProducerConsumerBenchmark {
            duration: span,
            ..b
        }),
        call_ensures(ProducerConsumerBenchmark::<PR, CO, P>::duration_secs, (b, secs), r) ==> r == (
        ProducerConsumerBenchmark {
            duration: Span { secs, nanos: 0 },
            ..b
        }),
        call_ensures(ProducerConsumerBenchmark::<PR, CO, P>::csv, (b, path), r) ==> r == (
        ProducerConsumerBenchmark {
            csv_path: Some(path),
            ..b
        }),
        call_ensures(ProducerConsumerBenchmark::<PR, CO, P>::progress, (b, on), r) ==> r == (
        ProducerConsumerBenchmark {
            show_progress: on,
            ..b
        }),
{
    law_or_zero(rate, rate.spec_or_zero());
    law_burst_range(rate);
}

/// The work of both roles and the formatter are taken on as they are, with all settings kept.
pub proof fn law_producer_consumer_parts<PR, CO, P, PR2, CO2, P2>(
    b: ProducerConsumerBenchmark<PR, CO, P>,
    first: PR2,
    second: CO2,
    f: P2,
    with_first: ProducerConsumerBenchmark<PR2, CO, P>,
    with_second: ProducerConsumerBenchmark<PR, CO2, P>,
    with_progress: ProducerConsumerBenchmark<PR, CO, P2>,
)
    requires
        call_ensures(
            ProducerConsumerBenchmark::<PR, CO, P>::producer::<PR2>,
            (b, first),
            with_first,
        ),
        call_ensures(
            ProducerConsumerBenchmark::<PR, CO, P>::consumer::<CO2>,
            (b, second),
            with_second,
        ),
        call_ensures(
            ProducerConsumerBenchmark::<PR, CO, P>::on_progress::<P2>,
            (b, f),
            with_progress,
        ),
    ensures
        with_first == (ProducerConsumerBenchmark {
            producers: b.producers,
            consumers: b.consumers,
            rate: b.rate,
            ramp_up: b.ramp_up,
            ramp_start_rate: b.ramp_start_rate,
            burst_factor: b.burst_factor,
            show_ramp_progress: b.show_ramp_progress,
            duration: b.duration,
            csv_path: b.csv_path,
            show_progress: b.show_progress,
            progress_fn: b.progress_fn,
            producer: Some(first),
            consumer: b.consumer,
        }),
        with_second == (ProducerConsumerBenchmark {
            producers: b.producers,
            consumers: b.consumers,
            rate: b.rate,
            ramp_up: b.ramp_up,
            ramp_start_rate: b.ramp_start_rate,
            burst_factor: b.burst_factor,
            show_ramp_progress: b.show_ramp_progress,
            duration: b.duration,
            csv_path: b.csv_path,
            show_progress: b.show_progress,
            progress_fn: b.progress_fn,
            producer: b.producer,
            consumer: Some(second),
        }),
        with_progress == (ProducerConsumerBenchmark {
            producers: b.producers,
            consumers: b.consumers,
            rate: b.rate,
            ramp_up: b.ramp_up,
            ramp_start_rate: b.ramp_start_rate,
            burst_factor: b.burst_factor,
            show_ramp_progress: b.show_ramp_progress,
            duration: b.duration,
            csv_path: b.csv_path,
            show_progress: b.show_progress,
            progress_fn: Some(f),
            producer: b.producer,
            consumer: b.consumer,
        }),
{
}

/// The settings where nothing is given: one producer, one consumer, a thousand messages per
/// second (whose bit pattern stands here), no ramp, ten seconds, progress shown.
pub proof fn law_producer_consumer_defaults(b: ProducerConsumerBenchmark<(), (), ()>)
    requires
        call_ensures(ProducerConsumerBenchmark::<(), (), ()>::new, (), b) || call_ensures(
            <ProducerConsumerBenchmark<(), (), ()> as Default>::default,
            (),
            b,
        ),
    ensures
        b.producers == 1,
        b.consumers == 1,
        b.rate.bits == 0x408f_4000_0000_0000,
        b.ramp_up is None,
        b.ramp_start_rate.bits == 0,
        b.burst_factor.bits == 0x3fb9_9999_9999_999a,
        b.show_ramp_progress,
        b.duration == (Span { secs: 10, nanos: 0 }),
        b.csv_path is None,
        b.show_progress,
        b.progress_fn is None,
        b.producer is None,
        b.consumer is None,
{
    let thousand = Float { bits: 0x408f_4000_0000_0000 };
    vstd::arithmetic::power2::lemma2_to64();
    vstd::arithmetic::power2::lemma2_to64_rest();
    lemma_whole(0x408f_4000_0000_0000, 1000, 43);
    law_equal_quantities(b.rate, thousand);
}

/// A run starts at the rate of the ramp where there is one, and at its own otherwise; its
/// snapshots go to the file where one is named, and show progress where that is asked for.
pub proof fn law_producer_consumer_start<PR, CO, P>(
    b: ProducerConsumerBenchmark<PR, CO, P>,
    rate: Float,
    config: DualSnapshotConfig,
)
    requires
        call_ensures(ProducerConsumerBenchmark::<PR, CO, P>::start_rate, (&b,), rate),
        call_ensures(ProducerConsumerBenchmark::<PR, CO, P>::snapshots, (&b,), config),
    ensures
        b.ramp_up is Some ==> rate == b.ramp_start_rate,
        b.ramp_up is None ==> rate == b.rate,
        config.to_file == b.csv_path is Some,
        config.show_progress == b.show_progress,
        config.show_ramp_progress == b.show_ramp_progress,
{
}

/// The plan of a run, step by step. All producers start, then all consumers, then the snapshots,
/// where there are any. Where the rate ramps, it rises to the target, and the ramp ends right
/// after. Then the run measures for its whole duration. The flag is cleared exactly once, right
/// after that; nothing stops before. Then all producers are waited for, all consumers, and the
/// snapshots.
pub proof fn law_producer_consumer_plan<PR, CO, P>(
    b: ProducerConsumerBenchmark<PR, CO, P>,
    plan: Vec<RunStep>,
)
    requires
        call_ensures(ProducerConsumerBenchmark::<PR, CO, P>::run_plan, (&b,), plan),
    ensures
        ({
            let snapshots = b.show_progress || b.csv_path is Some;
            let ramps = b.ramp_up is Some;
            let more: int = if snapshots {
                1
            } else {
                0
            };
            let sleep: int = 2 + more + if ramps {
                2int
            } else {
                0int
            };
            &&& plan@.len() == sleep + 4 + more
            &&& forall|i: int|
                0 <= i < plan@.len() ==> {
                    let step = #[trigger] plan@[i];
                    &&& step == RunStep::Stop(Signal::Running) <==> i == sleep + 1
                    &&& step is Stop ==> i == sleep + 1
                    &&& step is Sleep <==> i == sleep
                    &&& step is Spawn <==> i == 0 || i == 1
                    &&& step is SpawnSnapshots <==> snapshots && i == 2
                    &&& step is Ramp <==> ramps && i == sleep - 2
                    &&& step is EndRamp <==> ramps && i == sleep - 1
                    &&& step is Join <==> i == sleep + 2 || i == sleep + 3
                    &&& step is JoinSnapshots <==> snapshots && i == sleep + 4
                    &&& step !is Drain
                }
            &&& plan@[0] == RunStep::Spawn(Role::Producers, b.producers)
            &&& plan@[1] == RunStep::Spawn(Role::Consumers, b.consumers)
            &&& b.ramp_up matches Some(over) ==> plan@[sleep - 2] == (RunStep::Ramp {
                from: b.ramp_start_rate,
                to: b.rate,
                over,
            })
            &&& plan@[sleep] == RunStep::Sleep(b.duration)
            &&& plan@[sleep + 2] == RunStep::Join(Role::Producers)
            &&& plan@[sleep + 3] == RunStep::Join(Role::Consumers)
        }),
{
}

/// The results hold the summaries of both roles in the measured stage, each from its own
/// snapshot, and the settings as they were.
pub proof fn law_producer_consumer_results<PR, CO, P>(
    b: ProducerConsumerBenchmark<PR, CO, P>,
    produced: StatsSnapshot,
    consumed: StatsSnapshot,
    errors: Vec<ErrorCount>,
    r: ProducerConsumerResults,
)
    requires
        call_ensures(
            ProducerConsumerBenchmark::<PR, CO, P>::results,
            (b, &produced, &consumed, errors),
            r,
        ),
    ensures
        r.produced.successes == produced.sent_count,
        r.produced.errors == produced.error_count,
        produced.sent_count + produced.error_count <= u64::MAX ==> r.produced.total_ops
            == produced.sent_count + produced.error_count,
        r.produced.throughput == produced.total_throughput,
        r.produced.error_breakdown@ == errors@,
        r.produced.of_products(produced, errors@),
        r.consumed.total_ops == consumed.received_count,
        r.consumed.successes == consumed.received_count,
        r.consumed.errors == consumed.error_count,
        r.consumed.throughput == consumed.total_throughput,
        r.consumed.latency_p50_ns == consumed.latency_ns_p50,
        r.consumed.latency_p95_ns == consumed.latency_ns_p95,
        r.consumed.latency_p99_ns == consumed.latency_ns_p99,
        r.consumed.error_breakdown@.len() == 0,
        r.consumed.of_receipts(consumed, Seq::empty()),
        r.producers == b.producers,
        r.consumers == b.consumers,
        r.target_rate == b.rate,
        r.duration == b.duration,
        r.csv_path == b.csv_path,
{
}

/// In every column of the table stands the figure that the header names there; what is in flight
/// is what was produced and not consumed.
pub proof fn law_producer_consumer_columns(
    produced: StatsSnapshot,
    consumed: StatsSnapshot,
    text: RowText,
    header: String,
    row: String,
)
    requires
        call_ensures(csv_header, (), header),
        call_ensures(csv_row, (&produced, &consumed, &text), row),
    ensures
        ({
            let names = header_fields();
            let figures = row_fields(produced, consumed, text);
            let in_flight: int = if produced.sent_count >= consumed.received_count {
                produced.sent_count - consumed.received_count
            } else {
                0
            };
            &&& header@ == comma_separated(names) && row@ == comma_separated(figures)
            &&& names.len() == 9 && figures.len() == 9
            &&& names[0] == "timestamp"@
            &&& figures[0] == decimal(produced.timestamp as nat)
            &&& names[1] == "produced"@
            &&& figures[1] == decimal(produced.sent_count as nat)
            &&& names[2] == "consumed"@
            &&& figures[2] == decimal(consumed.received_count as nat)
            &&& names[3] == "in_flight"@
            &&& figures[3] == decimal(in_flight as nat)
            &&& names[4] == "produce_rate"@
            &&& figures[4] == text.produce_rate@
            &&& names[5] == "consume_rate"@
            &&& figures[5] == text.consume_rate@
            &&& names[6] == "p50_ms"@
            &&& figures[6] == text.p50_ms@
            &&& names[7] == "p95_ms"@
            &&& figures[7] == text.p95_ms@
            &&& names[8] == "p99_ms"@
            &&& figures[8] == text.p99_ms@
        }),
{
}

/// The default progress line shows what was produced, consumed and is in flight.
pub proof fn law_producer_consumer_progress_line(
    produced: StatsSnapshot,
    consumed: StatsSnapshot,
    p50_ms: &str,
    r: String,
)
    requires
        call_ensures(progress_line, (&produced, &consumed, p50_ms), r),
    ensures
        ({
            let in_flight: int = if produced.sent_count >= consumed.received_count {
                produced.sent_count - consumed.received_count
            } else {
                0
            };
            r@ == "  "@ + decimal(produced.sent_count as nat) + " produced | "@ + decimal(
                consumed.received_count as nat,
            ) + " consumed | "@ + decimal(in_flight as nat) + " in-flight | p50="@ + p50_ms@
                + "ms"@
        }),
{
    reveal_with_fuel(joined, 12);
    let in_flight = monus(produced.sent_count, consumed.received_count);
    assert(r@ =~= "  "@ + decimal(produced.sent_count as nat) + " produced | "@ + decimal(
        consumed.received_count as nat,
    ) + " consumed | "@ + decimal(in_flight as nat) + " in-flight | p50="@ + p50_ms@ + "ms"@);
}

} // verus!
