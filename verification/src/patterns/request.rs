//! Request/response pattern.

use crate::config::BenchmarkConfig;
use crate::float::{law_or_zero, law_positive, Float, ONE_TENTH};
use crate::metrics::errors::{
    breaks_down, count_of, counted_in, law_breakdown_adds_up, law_counts_occurrences, occurrences,
    tally, ErrorCount,
};
use crate::metrics::snapshot::StatsSnapshot;
use crate::sums::{
    lemma_total_equal, lemma_total_same, lemma_total_splits, total,
};
use crate::patterns::work::{BenchmarkResults, BenchmarkSummary, WorkResult};
use crate::patterns::{clamp_burst, law_burst_range, lemma_outputs, outputs, progress_text,
    shown_text, spec_clamp_burst, Role, RunStep, Signal, SnapshotOutput, Stage};
use crate::span::Span;
use crate::text::{decimal, decimal_text, joined, joined_text, slices};
use vstd::prelude::*;
use vstd::string::*;

verus! {

// ---------------------------------------------------------------------------
// Worker
// ---------------------------------------------------------------------------

/// Latencies that a worker collects before it reports them together.
pub const BATCH: usize = 64;

/// Where a worker stands: which action it waits for, and the stage of its operation.
#[derive(Clone, Copy, Debug, PartialEq, Eq, Structural)]
pub enum RequestPhase {
    Starting,
    Checking,
    Acquiring,
    Counting(Stage),
    Working(Stage),
    Reporting,
    Flushing,
    Cleaning,
    Finished,
}

/// What a worker asks for. Figures are recorded for the stage given.
#[derive(Debug)]
pub enum RequestAction<B, T> {
    /// Create the state of the worker.
    Init,
    /// Read the running flag.
    CheckRunning,
    /// Wait for a permit of the rate limiter.
    Acquire,
    /// Count an operation as sent.
    RecordSent(Stage),
    /// Perform one unit of work.
    Work,
    /// Record these latencies as received.
    RecordBatch(Stage, B),
    /// Record an error with its reason.
    RecordError(Stage, T),
    /// Clean the state of the worker up.
    Cleanup,
    /// End.
    Finish,
}

impl View for RequestAction<Vec<u64>, String> {
    type V = RequestAction<Seq<u64>, Seq<char>>;

    open spec fn view(&self) -> RequestAction<Seq<u64>, Seq<char>> {
        match self {
            RequestAction::Init => RequestAction::Init,
            RequestAction::CheckRunning => RequestAction::CheckRunning,
            RequestAction::Acquire => RequestAction::Acquire,
            RequestAction::RecordSent(stage) => RequestAction::RecordSent(*stage),
            RequestAction::Work => RequestAction::Work,
            RequestAction::RecordBatch(stage, batch) => RequestAction::RecordBatch(*stage, batch@),
            RequestAction::RecordError(stage, reason) => RequestAction::RecordError(
                *stage,
                reason@,
            ),
            RequestAction::Cleanup => RequestAction::Cleanup,
            RequestAction::Finish => RequestAction::Finish,
        }
    }
}

/// What became of an action.
#[derive(Debug)]
pub enum RequestEvent {
    /// The state of the worker is there.
    Initialized,
    /// What the running flag said.
    Running(bool),
    /// The permit came, in this stage of the run.
    Acquired(Stage),
    /// The figures are recorded.
    Recorded,
    /// The unit of work ended.
    Worked(WorkResult),
    /// The state of the worker is cleaned up.
    CleanedUp,
}

/// A worker's phase and the latencies of each stage that it has not reported yet.
pub struct RequestState {
    pub phase: RequestPhase,
    pub ramp: Seq<u64>,
    pub measured: Seq<u64>,
}

impl RequestState {
    /// The latencies of a stage that are not reported yet.
    pub open spec fn buffered(self, stage: Stage) -> Seq<u64> {
        match stage {
            Stage::Ramp => self.ramp,
            Stage::Measured => self.measured,
        }
    }

    /// The worker with these latencies of a stage not reported yet.
    pub open spec fn with(self, stage: Stage, latencies: Seq<u64>) -> RequestState {
        match stage {
            Stage::Ramp => RequestState { ramp: latencies, ..self },
            Stage::Measured => RequestState { measured: latencies, ..self },
        }
    }

    /// The worker in another phase.
    pub open spec fn at(self, phase: RequestPhase) -> RequestState {
        RequestState { phase, ..self }
    }
}

/// How a worker winds up: it reports what it has not reported yet, then cleans up.
pub open spec fn wind_up(s: RequestState) -> (RequestState, RequestAction<Seq<u64>, Seq<char>>) {
    if s.measured.len() > 0 {
        (
            s.with(Stage::Measured, seq![]).at(RequestPhase::Flushing),
            RequestAction::RecordBatch(Stage::Measured, s.measured),
        )
    } else if s.ramp.len() > 0 {
        (
            s.with(Stage::Ramp, seq![]).at(RequestPhase::Flushing),
            RequestAction::RecordBatch(Stage::Ramp, s.ramp),
        )
    } else {
        (s.at(RequestPhase::Cleaning), RequestAction::Cleanup)
    }
}

/// The transition that an event causes; none where the worker does not wait for it.
pub open spec fn request_next(s: RequestState, event: RequestEvent) -> Option<
    (RequestState, RequestAction<Seq<u64>, Seq<char>>),
> {
    match (s.phase, event) {
        (RequestPhase::Starting, RequestEvent::Initialized) => Some(
            (s.at(RequestPhase::Checking), RequestAction::CheckRunning),
        ),
        (RequestPhase::Checking, RequestEvent::Running(running)) => if running {
            Some((s.at(RequestPhase::Acquiring), RequestAction::Acquire))
        } else {
            Some(wind_up(s))
        },
        (RequestPhase::Acquiring, RequestEvent::Acquired(stage)) => Some(
            (s.at(RequestPhase::Counting(stage)), RequestAction::RecordSent(stage)),
        ),
        (RequestPhase::Counting(stage), RequestEvent::Recorded) => Some(
            (s.at(RequestPhase::Working(stage)), RequestAction::Work),
        ),
        (RequestPhase::Working(stage), RequestEvent::Worked(result)) => match result {
            WorkResult::Success(latency) => {
                let buffered = s.buffered(stage).push(latency);
                if buffered.len() >= BATCH {
                    Some(
                        (
                            s.with(stage, seq![]).at(RequestPhase::Reporting),
                            RequestAction::RecordBatch(stage, buffered),
                        ),
                    )
                } else {
                    Some(
                        (
                            s.with(stage, buffered).at(RequestPhase::Checking),
                            RequestAction::CheckRunning,
                        ),
                    )
                }
            },
            WorkResult::Error(reason) => Some(
                (s.at(RequestPhase::Reporting), RequestAction::RecordError(stage, reason@)),
            ),
        },
        (RequestPhase::Reporting, RequestEvent::Recorded) => Some(
            (s.at(RequestPhase::Checking), RequestAction::CheckRunning),
        ),
        (RequestPhase::Flushing, RequestEvent::Recorded) => Some(wind_up(s)),
        (RequestPhase::Cleaning, RequestEvent::CleanedUp) => Some(
            (s.at(RequestPhase::Finished), RequestAction::Finish),
        ),
        _ => None,
    }
}

/// A worker that has not started.
pub open spec fn request_start() -> RequestState {
    RequestState { phase: RequestPhase::Starting, ramp: seq![], measured: seq![] }
}

/// One worker of a request/response run.
pub struct RequestWorker {
    phase: RequestPhase,
    ramp_buf: Vec<u64>,
    lat_buf: Vec<u64>,
}

impl View for RequestWorker {
    type V = RequestState;

    closed spec fn view(&self) -> RequestState {
        RequestState { phase: self.phase, ramp: self.ramp_buf@, measured: self.lat_buf@ }
    }
}

impl RequestWorker {
    /// A worker and its first action.
    pub fn start() -> (r: (RequestWorker, RequestAction<Vec<u64>, String>))
        ensures
            r.0@ == request_start(),
            r.1 is Init,
    {
        (
            RequestWorker {
                phase: RequestPhase::Starting,
                ramp_buf: Vec::new(),
                lat_buf: Vec::with_capacity(BATCH),
            },
            RequestAction::Init,
        )
    }

    /// Takes the latencies of a stage that are not reported yet.
    fn drain(&mut self, stage: Stage) -> (batch: Vec<u64>)
        ensures
            batch@ == old(self)@.buffered(stage),
            final(self)@ == old(self)@.with(stage, seq![]),
    {
        let mut batch: Vec<u64> = Vec::with_capacity(BATCH);
        match stage {
            Stage::Ramp => {
                std::mem::swap(&mut batch, &mut self.ramp_buf);
            },
            Stage::Measured => {
                std::mem::swap(&mut batch, &mut self.lat_buf);
            },
        }
        batch
    }

    /// Adds a latency to those of a stage, and tells how many there are.
    fn collect(&mut self, stage: Stage, latency: u64) -> (n: usize)
        ensures
            final(self)@ == old(self)@.with(stage, old(self)@.buffered(stage).push(latency)),
            n == final(self)@.buffered(stage).len(),
    {
        match stage {
            Stage::Ramp => {
                self.ramp_buf.push(latency);
                self.ramp_buf.len()
            },
            Stage::Measured => {
                self.lat_buf.push(latency);
                self.lat_buf.len()
            },
        }
    }

    /// Reports what is not reported yet, or cleans up.
    fn finish(&mut self) -> (r: RequestAction<Vec<u64>, String>)
        ensures
            (final(self)@, r@) == wind_up(old(self)@),
    {
        if self.lat_buf.len() > 0 {
            let batch: Vec<u64> = self.drain(Stage::Measured);
            self.phase = RequestPhase::Flushing;
            RequestAction::RecordBatch(Stage::Measured, batch)
        } else if self.ramp_buf.len() > 0 {
            let batch: Vec<u64> = self.drain(Stage::Ramp);
            self.phase = RequestPhase::Flushing;
            RequestAction::RecordBatch(Stage::Ramp, batch)
        } else {
            self.phase = RequestPhase::Cleaning;
            RequestAction::Cleanup
        }
    }

    /// Takes in what became of the last action and names the next; `None`, with the worker
    /// unchanged, where the event does not belong to the last action.
    pub fn step(&mut self, event: RequestEvent) -> (r: Option<RequestAction<Vec<u64>, String>>)
        ensures
            match request_next(old(self)@, event) {
                Some((state, action)) => final(self)@ == state && r is Some && r->0@ == action,
                None => r is None && final(self)@ == old(self)@,
            },
    {
        match (self.phase, event) {
            (RequestPhase::Starting, RequestEvent::Initialized) => {
                self.phase = RequestPhase::Checking;
                Some(RequestAction::CheckRunning)
            },
            (RequestPhase::Checking, RequestEvent::Running(running)) => if running {
                self.phase = RequestPhase::Acquiring;
                Some(RequestAction::Acquire)
            } else {
                Some(self.finish())
            },
            (RequestPhase::Acquiring, RequestEvent::Acquired(stage)) => {
                self.phase = RequestPhase::Counting(stage);
                Some(RequestAction::RecordSent(stage))
            },
            (RequestPhase::Counting(stage), RequestEvent::Recorded) => {
                self.phase = RequestPhase::Working(stage);
                Some(RequestAction::Work)
            },
            (RequestPhase::Working(stage), RequestEvent::Worked(WorkResult::Success(latency))) => {
                if self.collect(stage, latency) >= BATCH {
                    let batch: Vec<u64> = self.drain(stage);
                    self.phase = RequestPhase::Reporting;
                    Some(RequestAction::RecordBatch(stage, batch))
                } else {
                    self.phase = RequestPhase::Checking;
                    Some(RequestAction::CheckRunning)
                }
            },
            (RequestPhase::Working(stage), RequestEvent::Worked(WorkResult::Error(reason))) => {
                self.phase = RequestPhase::Reporting;
                Some(RequestAction::RecordError(stage, reason))
            },
            (RequestPhase::Reporting, RequestEvent::Recorded) => {
                self.phase = RequestPhase::Checking;
                Some(RequestAction::CheckRunning)
            },
            (RequestPhase::Flushing, RequestEvent::Recorded) => Some(self.finish()),
            (RequestPhase::Cleaning, RequestEvent::CleanedUp) => {
                self.phase = RequestPhase::Finished;
                Some(RequestAction::Finish)
            },
            _ => None,
        }
    }
}

// ---------------------------------------------------------------------------
// One worker
// ---------------------------------------------------------------------------

/// What a worker has done so far in one stage of the run, and with its state.
pub struct RequestTally {
    /// States created.
    pub created: nat,
    /// States cleaned up.
    pub cleaned: nat,
    /// Permits that came.
    pub acquired: nat,
    /// Operations counted as sent.
    pub sent: nat,
    /// Results of the units of work, in order.
    pub results: Seq<WorkResult>,
    /// Latencies recorded as received, in order.
    pub received: Seq<u64>,
    /// Reasons recorded as errors, in order.
    pub failed: Seq<Seq<char>>,
}

impl RequestTally {
    /// What a worker has done in `stage` after one more event, which came in `phase`, and the
    /// action it led to.
    pub open spec fn after(
        self,
        stage: Stage,
        phase: RequestPhase,
        event: RequestEvent,
        action: RequestAction<Seq<u64>, Seq<char>>,
    ) -> RequestTally {
        RequestTally {
            created: if event is Initialized {
                self.created + 1
            } else {
                self.created
            },
            cleaned: if event is CleanedUp {
                self.cleaned + 1
            } else {
                self.cleaned
            },
            acquired: if event == RequestEvent::Acquired(stage) {
                self.acquired + 1
            } else {
                self.acquired
            },
            sent: if action == RequestAction::<Seq<u64>, Seq<char>>::RecordSent(stage) {
                self.sent + 1
            } else {
                self.sent
            },
            results: match event {
                RequestEvent::Worked(result) => if phase == RequestPhase::Working(stage) {
                    self.results.push(result)
                } else {
                    self.results
                },
                _ => self.results,
            },
            received: match action {
                RequestAction::RecordBatch(of, batch) => if of == stage {
                    self.received + batch
                } else {
                    self.received
                },
                _ => self.received,
            },
            failed: match action {
                RequestAction::RecordError(of, reason) => if of == stage {
                    self.failed.push(reason)
                } else {
                    self.failed
                },
                _ => self.failed,
            },
        }
    }
}

/// The worker and what it has done in `stage` after the events, where it accepts them all.
pub open spec fn request_run(events: Seq<RequestEvent>, stage: Stage) -> Option<
    (RequestState, RequestTally),
>
    decreases events.len(),
{
    if events.len() == 0 {
        Some(
            (
                request_start(),
                RequestTally {
                    created: 0,
                    cleaned: 0,
                    acquired: 0,
                    sent: 0,
                    results: seq![],
                    received: seq![],
                    failed: seq![],
                },
            ),
        )
    } else {
        match request_run(events.drop_last(), stage) {
            Some((s, t)) => match request_next(s, events.last()) {
                Some((s2, action)) => Some((s2, t.after(stage, s.phase, events.last(), action))),
                None => None,
            },
            None => None,
        }
    }
}

/// The latencies of the successes, in order.
pub open spec fn latencies(results: Seq<WorkResult>) -> Seq<u64>
    decreases results.len(),
{
    if results.len() == 0 {
        seq![]
    } else {
        match results.last() {
            WorkResult::Success(latency) => latencies(results.drop_last()).push(latency),
            WorkResult::Error(_) => latencies(results.drop_last()),
        }
    }
}

/// The reasons of the failures, in order.
pub open spec fn failures(results: Seq<WorkResult>) -> Seq<Seq<char>>
    decreases results.len(),
{
    if results.len() == 0 {
        seq![]
    } else {
        match results.last() {
            WorkResult::Success(_) => failures(results.drop_last()),
            WorkResult::Error(reason) => failures(results.drop_last()).push(reason@),
        }
    }
}

proof fn lemma_results_split(results: Seq<WorkResult>)
    ensures
        latencies(results).len() + failures(results).len() == results.len(),
    decreases results.len(),
{
    if results.len() > 0 {
        lemma_results_split(results.drop_last());
    }
}

/// No result is lost, repeated or reordered, whatever happens: in each stage the latencies
/// recorded and those still collected are those of the successes, the reasons recorded are
/// those of the failures, and every operation that is sent had its own permit.
pub proof fn law_request_worker_accounts(events: Seq<RequestEvent>, stage: Stage)
    requires
        request_run(events, stage) is Some,
    ensures
        ({
            let (s, t) = request_run(events, stage)->0;
            &&& t.received + s.buffered(stage) == latencies(t.results)
            &&& t.failed == failures(t.results)
            &&& s.buffered(stage).len() < BATCH
            &&& t.sent == t.acquired
            &&& t.sent == t.results.len() + if s.phase == RequestPhase::Counting(stage) || s.phase
                == RequestPhase::Working(stage) {
                1int
            } else {
                0int
            }
            &&& s.phase is Cleaning || s.phase is Finished ==> s.buffered(stage).len() == 0
        }),
    decreases events.len(),
{
    if events.len() > 0 {
        law_request_worker_accounts(events.drop_last(), stage);
        let (s, t) = request_run(events.drop_last(), stage)->0;
        let (s2, t2) = request_run(events, stage)->0;
        if t2.results.len() > t.results.len() {
            assert(t2.results.drop_last() =~= t.results);
            assert(t2.received + s2.buffered(stage) =~= latencies(t2.results));
        } else {
            assert(t2.received + s2.buffered(stage) =~= t.received + s.buffered(stage));
        }
    } else {
        assert(Seq::<u64>::empty() + Seq::<u64>::empty() =~= Seq::<u64>::empty());
    }
}

/// At the end of a worker every operation it sent in a stage has been recorded once, as
/// received or as an error.
pub proof fn law_request_worker_ends_settled(events: Seq<RequestEvent>, stage: Stage)
    requires
        request_run(events, stage) is Some,
        (request_run(events, stage)->0).0.phase is Finished,
    ensures
        ({
            let t = (request_run(events, stage)->0).1;
            &&& t.received == latencies(t.results)
            &&& t.failed == failures(t.results)
            &&& t.sent == t.received.len() + t.failed.len()
        }),
{
    law_request_worker_accounts(events, stage);
    let (s, t) = request_run(events, stage)->0;
    assert(t.received + s.buffered(stage) =~= t.received);
    lemma_results_split(t.results);
}

/// A worker creates its state once, before anything else, and cleans it up once, after
/// everything else.
pub proof fn law_request_worker_lifecycle(events: Seq<RequestEvent>, stage: Stage)
    requires
        request_run(events, stage) is Some,
    ensures
        ({
            let (s, t) = request_run(events, stage)->0;
            &&& t.created == if s.phase is Starting {
                0nat
            } else {
                1nat
            }
            &&& t.cleaned == if s.phase is Finished {
                1nat
            } else {
                0nat
            }
            &&& s.phase is Starting ==> t.acquired == 0 && t.results.len() == 0
            &&& s.phase is Finished ==> forall|event: RequestEvent| #[trigger]
                request_next(s, event) is None
        }),
    decreases events.len(),
{
    if events.len() > 0 {
        law_request_worker_lifecycle(events.drop_last(), stage);
    }
}

/// Once a worker has seen that the run is over it sends nothing more.
pub proof fn law_request_worker_stops(
    events: Seq<RequestEvent>,
    more: Seq<RequestEvent>,
    stage: Stage,
)
    requires
        request_run(events.push(RequestEvent::Running(false)), stage) is Some,
        request_run(events.push(RequestEvent::Running(false)) + more, stage) is Some,
    ensures
        ({
            let told = events.push(RequestEvent::Running(false));
            let (s, t) = request_run(told, stage)->0;
            let (s2, t2) = request_run(told + more, stage)->0;
            &&& t2.acquired == t.acquired
            &&& t2.sent == t.sent
            &&& t2.results == t.results
            &&& s2.phase is Flushing || s2.phase is Cleaning || s2.phase is Finished
        }),
    decreases more.len(),
{
    let told = events.push(RequestEvent::Running(false));
    if more.len() == 0 {
        assert(told + more =~= told);
        assert(told.drop_last() =~= events);
    } else {
        assert((told + more).drop_last() =~= told + more.drop_last());
        law_request_worker_stops(events, more.drop_last(), stage);
    }
}

/// While the run goes on, latencies are reported in full batches; what is left over of a
/// stage at the end is reported in one smaller batch, and never an empty one.
pub proof fn law_batches_are_full(events: Seq<RequestEvent>, event: RequestEvent, stage: Stage)
    requires
        request_run(events, stage) is Some,
        request_next((request_run(events, stage)->0).0, event) is Some,
        (request_next((request_run(events, stage)->0).0, event)->0).1 is RecordBatch,
        (request_next((request_run(events, stage)->0).0, event)->0).1->RecordBatch_0 == stage,
    ensures
        ({
            let (s2, action) = request_next((request_run(events, stage)->0).0, event)->0;
            if event is Worked {
                action->RecordBatch_1.len() == BATCH
            } else {
                0 < action->RecordBatch_1.len() < BATCH
            }
        }),
{
    law_request_worker_accounts(events, stage);
}

// ---------------------------------------------------------------------------
// All workers of a run
// ---------------------------------------------------------------------------

/// Whether every worker of a run has ended; `runs` are the events of each.
pub open spec fn all_ended(runs: Seq<Seq<RequestEvent>>) -> bool {
    forall|k: int|
        0 <= k < runs.len() ==> {
            &&& request_run(#[trigger] runs[k], Stage::Measured) is Some
            &&& (request_run(runs[k], Stage::Measured)->0).0.phase is Finished
        }
}

/// What a worker has done in one stage.
pub open spec fn done(events: Seq<RequestEvent>, stage: Stage) -> RequestTally {
    (request_run(events, stage)->0).1
}

/// What a worker has done in the measured stage.
pub open spec fn measured(events: Seq<RequestEvent>) -> RequestTally {
    done(events, Stage::Measured)
}

/// Successes that the work of all workers returned in the measured stage.
pub open spec fn successes(runs: Seq<Seq<RequestEvent>>) -> nat {
    total(runs, |run: Seq<RequestEvent>| latencies(measured(run).results).len())
}

/// Errors that the work of all workers returned in the measured stage.
pub open spec fn errors(runs: Seq<Seq<RequestEvent>>) -> nat {
    total(runs, |run: Seq<RequestEvent>| failures(measured(run).results).len())
}

/// How often the work of all workers returned this error in the measured stage.
pub open spec fn errors_with(runs: Seq<Seq<RequestEvent>>, reason: Seq<char>) -> nat {
    total(runs, |run: Seq<RequestEvent>| occurrences(failures(measured(run).results), reason))
}

/// Whether a snapshot counts what all workers recorded in the measured stage.
pub open spec fn snapshot_of(runs: Seq<Seq<RequestEvent>>, snap: StatsSnapshot) -> bool {
    snap.counts(
        total(runs, |run: Seq<RequestEvent>| measured(run).sent),
        total(runs, |run: Seq<RequestEvent>| measured(run).received.len()),
        total(runs, |run: Seq<RequestEvent>| measured(run).failed.len()),
    )
}

/// Whether `reasons` are those that all workers recorded in the measured stage, in some order.
pub open spec fn reasons_of(runs: Seq<Seq<RequestEvent>>, reasons: Seq<Seq<char>>) -> bool {
    &&& reasons.len() == total(runs, |run: Seq<RequestEvent>| measured(run).failed.len())
    &&& forall|reason: Seq<char>| #[trigger]
        occurrences(reasons, reason) == total(
            runs,
            |run: Seq<RequestEvent>| occurrences(measured(run).failed, reason),
        )
}

/// Every operation of the measured stage, of whichever worker, is counted once in the
/// results, as a success or as an error.
pub proof fn law_request_totals(
    runs: Seq<Seq<RequestEvent>>,
    snap: StatsSnapshot,
    counts: Seq<ErrorCount>,
    summary: BenchmarkSummary,
)
    requires
        all_ended(runs),
        snapshot_of(runs, snap),
        summary.of_requests(snap, counts),
    ensures
        summary.total_ops == successes(runs) + errors(runs),
        summary.successes == successes(runs),
        summary.errors == errors(runs),
{
    let sent = |run: Seq<RequestEvent>| measured(run).sent;
    let received = |run: Seq<RequestEvent>| measured(run).received.len();
    let failed = |run: Seq<RequestEvent>| measured(run).failed.len();
    let ok = |run: Seq<RequestEvent>| latencies(measured(run).results).len();
    let wrong = |run: Seq<RequestEvent>| failures(measured(run).results).len();
    assert forall|k: int| 0 <= k < runs.len() implies #[trigger] sent(runs[k]) == ok(runs[k])
        + wrong(runs[k]) by {
        law_request_worker_ends_settled(runs[k], Stage::Measured);
    }
    assert forall|k: int| 0 <= k < runs.len() implies #[trigger] received(runs[k]) == ok(
        runs[k],
    ) by {
        law_request_worker_ends_settled(runs[k], Stage::Measured);
    }
    assert forall|k: int| 0 <= k < runs.len() implies #[trigger] failed(runs[k]) == wrong(
        runs[k],
    ) by {
        law_request_worker_ends_settled(runs[k], Stage::Measured);
    }
    lemma_total_splits(runs, sent, ok, wrong);
    lemma_total_equal(runs, received, ok);
    lemma_total_equal(runs, failed, wrong);
}

/// The breakdown of the results holds every reason that the work of some worker gave in the
/// measured stage, with the number of times, and no other; its counts add up to the errors.
pub proof fn law_request_breakdown(
    runs: Seq<Seq<RequestEvent>>,
    snap: StatsSnapshot,
    counts: Seq<ErrorCount>,
    reasons: Seq<Seq<char>>,
    summary: BenchmarkSummary,
    reason: Seq<char>,
)
    requires
        all_ended(runs),
        snapshot_of(runs, snap),
        reasons_of(runs, reasons),
        breaks_down(counts, reasons),
        summary.of_requests(snap, counts),
    ensures
        count_of(tally(summary.error_breakdown@), reason) == errors_with(runs, reason),
        tally(summary.error_breakdown@).dom().contains(reason) <==> errors_with(runs, reason) > 0,
        counted_in(summary.error_breakdown@) == summary.errors,
{
    let recorded_so = |run: Seq<RequestEvent>| occurrences(measured(run).failed, reason);
    let returned_so = |run: Seq<RequestEvent>|
        occurrences(failures(measured(run).results), reason);
    assert forall|k: int| 0 <= k < runs.len() implies #[trigger] recorded_so(runs[k])
        == returned_so(runs[k]) by {
        law_request_worker_ends_settled(runs[k], Stage::Measured);
    }
    lemma_total_equal(runs, recorded_so, returned_so);
    assert(occurrences(reasons, reason) == errors_with(runs, reason));
    law_counts_occurrences(reasons, reason);
    law_breakdown_adds_up(counts, reasons);
}

/// Where a worker stands does not depend on the stage that is looked at.
proof fn lemma_one_worker(events: Seq<RequestEvent>, stage: Stage)
    ensures
        request_run(events, stage) is Some <==> request_run(events, Stage::Measured) is Some,
        request_run(events, stage) is Some ==> (request_run(events, stage)->0).0 == (request_run(
            events,
            Stage::Measured,
        )->0).0,
    decreases events.len(),
{
    if events.len() > 0 {
        lemma_one_worker(events.drop_last(), stage);
    }
}

/// Every worker of a run creates its state once and cleans it up once, and in each stage its
/// units of work are as many as its permits.
pub proof fn law_request_lifecycles(runs: Seq<Seq<RequestEvent>>, stage: Stage)
    requires
        all_ended(runs),
    ensures
        forall|k: int|
            0 <= k < runs.len() ==> {
                &&& done(#[trigger] runs[k], stage).created == 1
                &&& done(runs[k], stage).cleaned == 1
                &&& done(runs[k], stage).results.len() == done(runs[k], stage).acquired
            },
        total(runs, |run: Seq<RequestEvent>| done(run, stage).created) == runs.len(),
        total(runs, |run: Seq<RequestEvent>| done(run, stage).cleaned) == runs.len(),
        total(runs, |run: Seq<RequestEvent>| done(run, stage).results.len()) == total(
            runs,
            |run: Seq<RequestEvent>| done(run, stage).acquired,
        ),
{
    let created = |run: Seq<RequestEvent>| done(run, stage).created;
    let cleaned = |run: Seq<RequestEvent>| done(run, stage).cleaned;
    let worked = |run: Seq<RequestEvent>| done(run, stage).results.len();
    let acquired = |run: Seq<RequestEvent>| done(run, stage).acquired;
    assert forall|k: int| 0 <= k < runs.len() implies {
        &&& done(#[trigger] runs[k], stage).created == 1
        &&& done(runs[k], stage).cleaned == 1
        &&& done(runs[k], stage).results.len() == done(runs[k], stage).acquired
    } by {
        lemma_one_worker(runs[k], stage);
        law_request_worker_lifecycle(runs[k], stage);
        law_request_worker_accounts(runs[k], stage);
    }
    lemma_total_same(runs, 1, created);
    lemma_total_same(runs, 1, cleaned);
    lemma_total_equal(runs, worked, acquired);
}

// ---------------------------------------------------------------------------
// Settings
// ---------------------------------------------------------------------------

/// How the rate is shared out.
#[derive(Clone, Copy, Debug, PartialEq, Eq, Structural)]
pub enum RateMode {
    /// One rate for all workers together.
    Total(Float),
    /// A rate for each worker.
    PerWorker(Float),
}

/// The limiter that a run uses.
#[derive(Clone, Copy, Debug, PartialEq, Eq, Structural)]
pub enum Limiter {
    /// Permits come at once.
    Unlimited,
    /// One controller for all workers.
    Shared(Float),
    /// A controller for each worker.
    PerWorker(Float),
    /// One controller for all workers, whose rate rises from this one.
    RampedShared(Float),
    /// A controller for each worker, whose rate rises from this one.
    RampedPerWorker(Float),
}

impl RateMode {
    /// The rate as given.
    pub open spec fn given(self) -> Float {
        match self {
            RateMode::Total(rate) => rate,
            RateMode::PerWorker(rate) => rate,
        }
    }

    /// Whether the rate is unlimited: zero or below.
    pub open spec fn unlimited(self) -> bool {
        !self.given().is_nan() && self.given().units() <= 0
    }

    /// The rate as given.
    pub fn rate(&self) -> (r: Float)
        ensures
            r == self.given(),
    {
        match self {
            RateMode::Total(rate) => *rate,
            RateMode::PerWorker(rate) => *rate,
        }
    }

    /// Whether the rate is unlimited: zero or below.
    pub fn is_unlimited(&self) -> (r: bool)
        ensures
            r == self.unlimited(),
    {
        proof {
            assert(crate::float::magnitude(0) == 0);
        }
        match self {
            RateMode::Total(rate) => rate.le(Float { bits: 0 }),
            RateMode::PerWorker(rate) => rate.le(Float { bits: 0 }),
        }
    }

    /// The rate of all workers together; `scaled` is the given rate times their number.
    pub fn total_rate(&self, scaled: Float) -> (r: Float)
        ensures
            r == (match self {
                RateMode::Total(rate) => *rate,
                RateMode::PerWorker(_) => scaled,
            }),
    {
        match self {
            RateMode::Total(rate) => *rate,
            RateMode::PerWorker(_) => scaled,
        }
    }
}

/// Settings of a request/response run.
///
/// `W` is the work, `P` the formatter of progress lines.
pub struct Benchmark<W = (), P = ()> {
    pub rate_mode: RateMode,
    pub workers: usize,
    /// Time over which the rate rises before the measured phase.
    pub ramp_up: Option<Span>,
    /// Rate at the start of the ramp.
    pub ramp_start_rate: Float,
    /// Burst allowance of the shared controllers, in seconds' worth of tokens.
    pub burst_factor: Float,
    pub show_ramp_progress: bool,
    pub duration: Span,
    pub warmup: Span,
    pub snapshot_interval: Span,
    pub work: Option<W>,
    pub csv_path: Option<String>,
    pub show_progress: bool,
    /// The formatter; without one, [`progress_line`] formats.
    pub progress_fn: Option<P>,
}

impl<W, P> Benchmark<W, P> {
    /// There is at least one worker.
    pub open spec fn valid(self) -> bool {
        self.workers >= 1
    }

    /// Whether the rate rises before the measured phase. An unlimited rate has nothing to
    /// rise to.
    pub open spec fn ramped(self) -> bool {
        self.ramp_up is Some && !self.rate_mode.unlimited()
    }

    /// Whether a snapshot shows progress.
    pub open spec fn shows(self, in_ramp: bool) -> bool {
        self.show_progress && (in_ramp ==> self.show_ramp_progress)
    }
}

impl Benchmark<(), ()> {
    /// The settings where nothing is given: unlimited rate, one worker, ten seconds,
    /// a tenth of a second of warmup, a snapshot per second.
    pub fn new() -> (r: Self)
        ensures
            r.rate_mode == RateMode::Total(Float { bits: 0 }),
            r.workers == 1,
            r.ramp_up is None,
            r.ramp_start_rate == (Float { bits: 0 }),
            r.burst_factor == (Float { bits: ONE_TENTH }),
            r.show_ramp_progress,
            r.duration@ == 10_000_000_000,
            r.warmup@ == 100_000_000,
            r.snapshot_interval@ == 1_000_000_000,
            r.work is None,
            r.csv_path is None,
            r.show_progress,
            r.progress_fn is None,
            r.valid(),
    {
        Benchmark {
            rate_mode: RateMode::Total(Float { bits: 0 }),
            workers: 1,
            ramp_up: None,
            ramp_start_rate: Float { bits: 0 },
            burst_factor: Float { bits: ONE_TENTH },
            show_ramp_progress: true,
            duration: Span::from_secs(10),
            warmup: Span::from_millis(100),
            snapshot_interval: Span::from_secs(1),
            work: None,
            csv_path: None,
            show_progress: true,
            progress_fn: None,
        }
    }

    /// The settings from the command line. A total rate wins over a rate per worker;
    /// without either the rate is unlimited. The drain timeout is for the patterns with two
    /// groups of workers.
    pub fn from_config(config: BenchmarkConfig) -> (r: Self)
        ensures
            r.rate_mode == (match (config.rate, config.rate_per_worker) {
                (Some(rate), _) => RateMode::Total(rate),
                (None, Some(rate)) => RateMode::PerWorker(rate),
                (None, None) => RateMode::Total(Float { bits: 0 }),
            }),
            r.workers == (if config.workers < 1 {
                1
            } else {
                config.workers
            }),
            r.ramp_up == (match config.ramp_up {
                Some(secs) => Some(Span { secs, nanos: 0 }),
                None => None,
            }),
            r.ramp_start_rate == config.ramp_start_rate.spec_or_zero(),
            r.burst_factor == spec_clamp_burst(config.burst_factor),
            r.show_ramp_progress == !config.hide_ramp_progress,
            r.duration == (Span { secs: config.duration, nanos: 0 }),
            r.warmup@ == 100_000_000,
            r.snapshot_interval@ == 1_000_000_000,
            r.work is None,
            r.csv_path == config.csv,
            r.show_progress == !config.no_progress,
            r.progress_fn is None,
            r.valid(),
    {
        let mut bench = Self::new().workers(config.workers).duration_secs(
            config.duration,
        ).ramp_start_rate(config.ramp_start_rate).burst_factor(config.burst_factor).progress(
            !config.no_progress,
        ).show_ramp_progress(!config.hide_ramp_progress);
        match config.ramp_up {
            Some(secs) => {
                bench = bench.ramp_up(Span::from_secs(secs));
            },
            None => {},
        }
        match (config.rate, config.rate_per_worker) {
            (Some(rate), _) => {
                bench = bench.rate(rate);
            },
            (None, Some(rate)) => {
                bench = bench.rate_per_worker(rate);
            },
            (None, None) => {},
        }
        match config.csv {
            Some(path) => bench.csv(path),
            None => bench,
        }
    }
}

impl Default for Benchmark<(), ()> {
    fn default() -> (r: Self)
        ensures
            r.rate_mode == RateMode::Total(Float { bits: 0 }),
            r.workers == 1,
            r.ramp_up is None,
            r.ramp_start_rate == (Float { bits: 0 }),
            r.burst_factor == (Float { bits: ONE_TENTH }),
            r.show_ramp_progress,
            r.duration@ == 10_000_000_000,
            r.warmup@ == 100_000_000,
            r.snapshot_interval@ == 1_000_000_000,
            r.work is None,
            r.csv_path is None,
            r.show_progress,
            r.progress_fn is None,
    {
        Self::new()
    }
}

impl<W, P> Benchmark<W, P> {
    /// Sets the rate of all workers together; zero or below is unlimited.
    pub fn rate(self, rate: Float) -> (r: Self)
        ensures
            r == (Benchmark { rate_mode: RateMode::Total(rate), ..self }),
    {
        Benchmark { rate_mode: RateMode::Total(rate), ..self }
    }

    /// Sets the rate of each worker; zero or below is unlimited.
    pub fn rate_per_worker(self, rate: Float) -> (r: Self)
        ensures
            r == (Benchmark { rate_mode: RateMode::PerWorker(rate), ..self }),
    {
        Benchmark { rate_mode: RateMode::PerWorker(rate), ..self }
    }

    /// Sets the number of workers, at least one.
    pub fn workers(self, workers: usize) -> (r: Self)
        ensures
            r == (Benchmark {
                workers: if workers < 1 {
                    1
                } else {
                    workers
                },
                ..self
            }),
            r.valid(),
    {
        let workers: usize = if workers < 1 {
            1
        } else {
            workers
        };
        Benchmark { workers, ..self }
    }

    /// Sets the time over which the rate rises before the measured phase. The rates of the
    /// ramp are shared or per worker as the target rate is.
    pub fn ramp_up(self, duration: Span) -> (r: Self)
        ensures
            r == (Benchmark { ramp_up: Some(duration), ..self }),
    {
        Benchmark { ramp_up: Some(duration), ..self }
    }

    /// Sets the rate at the start of the ramp; below zero counts as zero.
    pub fn ramp_start_rate(self, rate: Float) -> (r: Self)
        ensures
            r == (Benchmark { ramp_start_rate: rate.spec_or_zero(), ..self }),
    {
        Benchmark { ramp_start_rate: rate.or_zero(), ..self }
    }

    /// Sets the burst allowance in seconds' worth of tokens, from one thousandth to one thousand.
    pub fn burst_factor(self, factor: Float) -> (r: Self)
        ensures
            r == (Benchmark { burst_factor: spec_clamp_burst(factor), ..self }),
    {
        Benchmark { burst_factor: clamp_burst(factor), ..self }
    }

    /// Chooses whether progress is shown during the ramp.
    pub fn show_ramp_progress(self, show: bool) -> (r: Self)
        ensures
            r == (Benchmark { show_ramp_progress: show, ..self }),
    {
        Benchmark { show_ramp_progress: show, ..self }
    }

    /// Sets the duration of the measured phase.
    pub fn duration(self, duration: Span) -> (r: Self)
        ensures
            r == (Benchmark { duration, ..self }),
    {
        Benchmark { duration, ..self }
    }

    /// Sets the duration of the measured phase in seconds.
    pub fn duration_secs(self, secs: u64) -> (r: Self)
        ensures
            r == (Benchmark { duration: Span { secs, nanos: 0 }, ..self }),
    {
        Benchmark { duration: Span::from_secs(secs), ..self }
    }

    /// Sets the pause before the workers start.
    pub fn warmup(self, warmup: Span) -> (r: Self)
        ensures
            r == (Benchmark { warmup, ..self }),
    {
        Benchmark { warmup, ..self }
    }

    /// Starts the workers without a pause.
    pub fn no_warmup(self) -> (r: Self)
        ensures
            r == (Benchmark { warmup: Span { secs: 0, nanos: 0 }, ..self }),
    {
        Benchmark { warmup: Span::from_secs(0), ..self }
    }

    /// Sets the time between snapshots.
    pub fn snapshot_interval(self, interval: Span) -> (r: Self)
        ensures
            r == (Benchmark { snapshot_interval: interval, ..self }),
    {
        Benchmark { snapshot_interval: interval, ..self }
    }

    /// Sets the time between snapshots in seconds.
    pub fn snapshot_interval_secs(self, secs: u64) -> (r: Self)
        ensures
            r == (Benchmark { snapshot_interval: Span { secs, nanos: 0 }, ..self }),
    {
        Benchmark { snapshot_interval: Span::from_secs(secs), ..self }
    }

    /// Sets the output file.
    pub fn csv(self, path: String) -> (r: Self)
        ensures
            r == (Benchmark { csv_path: Some(path), ..self }),
    {
        Benchmark { csv_path: Some(path), ..self }
    }

    /// Chooses between progress lines and raw rows on standard output.
    pub fn progress(self, show: bool) -> (r: Self)
        ensures
            r == (Benchmark { show_progress: show, ..self }),
    {
        Benchmark { show_progress: show, ..self }
    }

    /// Sets the formatter of progress lines.
    pub fn on_progress<P2>(self, f: P2) -> (r: Benchmark<W, P2>)
        ensures
            r.progress_fn == Some(f),
            r.rate_mode == self.rate_mode,
            r.workers == self.workers,
            r.ramp_up == self.ramp_up,
            r.ramp_start_rate == self.ramp_start_rate,
            r.burst_factor == self.burst_factor,
            r.show_ramp_progress == self.show_ramp_progress,
            r.duration == self.duration,
            r.warmup == self.warmup,
            r.snapshot_interval == self.snapshot_interval,
            r.work == self.work,
            r.csv_path == self.csv_path,
            r.show_progress == self.show_progress,
    {
        Benchmark {
            rate_mode: self.rate_mode,
            workers: self.workers,
            ramp_up: self.ramp_up,
            ramp_start_rate: self.ramp_start_rate,
            burst_factor: self.burst_factor,
            show_ramp_progress: self.show_ramp_progress,
            duration: self.duration,
            warmup: self.warmup,
            snapshot_interval: self.snapshot_interval,
            work: self.work,
            csv_path: self.csv_path,
            show_progress: self.show_progress,
            progress_fn: Some(f),
        }
    }

    /// Sets the work.
    pub fn work<W2>(self, work: W2) -> (r: Benchmark<W2, P>)
        ensures
            r.work == Some(work),
            r.rate_mode == self.rate_mode,
            r.workers == self.workers,
            r.ramp_up == self.ramp_up,
            r.ramp_start_rate == self.ramp_start_rate,
            r.burst_factor == self.burst_factor,
            r.show_ramp_progress == self.show_ramp_progress,
            r.duration == self.duration,
            r.warmup == self.warmup,
            r.snapshot_interval == self.snapshot_interval,
            r.csv_path == self.csv_path,
            r.show_progress == self.show_progress,
            r.progress_fn == self.progress_fn,
    {
        Benchmark {
            rate_mode: self.rate_mode,
            workers: self.workers,
            ramp_up: self.ramp_up,
            ramp_start_rate: self.ramp_start_rate,
            burst_factor: self.burst_factor,
            show_ramp_progress: self.show_ramp_progress,
            duration: self.duration,
            warmup: self.warmup,
            snapshot_interval: self.snapshot_interval,
            work: Some(work),
            csv_path: self.csv_path,
            show_progress: self.show_progress,
            progress_fn: self.progress_fn,
        }
    }

    // -----------------------------------------------------------------------
    // Run
    // -----------------------------------------------------------------------

    /// Whether the rate rises before the measured phase.
    pub fn is_ramped(&self) -> (r: bool)
        ensures
            r == self.ramped(),
    {
        self.ramp_up.is_some() && !self.rate_mode.is_unlimited()
    }

    /// The limiter of a run.
    pub fn limiter(&self) -> (r: Limiter)
        ensures
            r == (if self.rate_mode.unlimited() {
                Limiter::Unlimited
            } else {
                match self.rate_mode {
                    RateMode::Total(rate) => if self.ramp_up is Some {
                        Limiter::RampedShared(self.ramp_start_rate)
                    } else {
                        Limiter::Shared(rate)
                    },
                    RateMode::PerWorker(rate) => if self.ramp_up is Some {
                        Limiter::RampedPerWorker(self.ramp_start_rate)
                    } else {
                        Limiter::PerWorker(rate)
                    },
                }
            }),
    {
        if self.rate_mode.is_unlimited() {
            return Limiter::Unlimited;
        }
        let ramped: bool = self.is_ramped();
        match self.rate_mode {
            RateMode::Total(rate) => if ramped {
                Limiter::RampedShared(self.ramp_start_rate)
            } else {
                Limiter::Shared(rate)
            },
            RateMode::PerWorker(rate) => if ramped {
                Limiter::RampedPerWorker(self.ramp_start_rate)
            } else {
                Limiter::PerWorker(rate)
            },
        }
    }

    /// The steps of a run.
    pub open spec fn steps(self) -> Seq<RunStep> {
        (if self.warmup@ == 0 {
            seq![]
        } else {
            seq![RunStep::Sleep(self.warmup)]
        }) + seq![
            RunStep::Spawn(Role::Requesters, self.workers),
            RunStep::SpawnSnapshots,
        ] + (if self.ramped() {
            seq![
                RunStep::Ramp {
                    from: self.ramp_start_rate,
                    to: self.rate_mode.given(),
                    over: self.ramp_up->0,
                },
                RunStep::EndRamp,
            ]
        } else {
            seq![]
        }) + seq![
            RunStep::Sleep(self.duration),
            RunStep::Stop(Signal::Running),
            RunStep::Join(Role::Requesters),
            RunStep::JoinSnapshots,
        ]
    }

    /// The steps of a run.
    pub fn run_plan(&self) -> (r: Vec<RunStep>)
        ensures
            r@ == self.steps(),
    {
        let mut plan: Vec<RunStep> = Vec::new();
        if !self.warmup.is_zero() {
            plan.push(RunStep::Sleep(self.warmup));
        }
        plan.push(RunStep::Spawn(Role::Requesters, self.workers));
        plan.push(RunStep::SpawnSnapshots);
        match self.ramp_up {
            Some(over) => {
                if !self.rate_mode.is_unlimited() {
                    plan.push(
                        RunStep::Ramp {
                            from: self.ramp_start_rate,
                            to: self.rate_mode.rate(),
                            over,
                        },
                    );
                    plan.push(RunStep::EndRamp);
                }
            },
            None => {},
        }
        plan.push(RunStep::Sleep(self.duration));
        plan.push(RunStep::Stop(Signal::Running));
        plan.push(RunStep::Join(Role::Requesters));
        plan.push(RunStep::JoinSnapshots);
        assert(plan@ =~= self.steps());
        plan
    }

    /// What is written before the first snapshot: the header, to the output file and,
    /// where raw rows replace the progress lines, to standard output.
    pub fn snapshot_opening(&self, header: String) -> (r: Vec<SnapshotOutput<String>>)
        ensures
            outputs(r@) == (if self.csv_path is Some {
                seq![SnapshotOutput::File(header@)]
            } else {
                seq![]
            }) + (if self.show_progress {
                seq![]
            } else {
                seq![SnapshotOutput::Stdout(header@)]
            }),
    {
        let mut list: Vec<SnapshotOutput<String>> = Vec::new();
        if self.csv_path.is_some() {
            list.push(SnapshotOutput::File(header.clone()));
        }
        if !self.show_progress {
            list.push(SnapshotOutput::Stdout(header));
        }
        assert(outputs(list@) =~= (if self.csv_path is Some {
            seq![SnapshotOutput::File(header@)]
        } else {
            seq![]
        }) + (if self.show_progress {
            seq![]
        } else {
            seq![SnapshotOutput::Stdout(header@)]
        }));
        list
    }

    /// Whether a snapshot shows progress; only then is the formatter asked for a line.
    pub fn shows_progress(&self, in_ramp: bool) -> (r: bool)
        ensures
            r == self.shows(in_ramp),
    {
        self.show_progress && (!in_ramp || self.show_ramp_progress)
    }

    /// What a snapshot writes: its row to the output file, and to standard output the
    /// progress line, if one is shown and the formatter gave one, or the raw row.
    pub open spec fn written(self, row: Seq<char>, line: Option<Seq<char>>, in_ramp: bool) -> Seq<
        SnapshotOutput<Seq<char>>,
    > {
        (if self.csv_path is Some {
            seq![SnapshotOutput::File(row)]
        } else {
            seq![]
        }) + (if !self.show_progress {
            seq![SnapshotOutput::Stdout(row)]
        } else if self.shows(in_ramp) && line is Some {
            seq![SnapshotOutput::Progress(progress_text(line->0, in_ramp))]
        } else {
            seq![]
        })
    }

    /// What a snapshot writes, given its row and what the formatter made of it.
    pub fn snapshot(&self, row: String, line: Option<String>, in_ramp: bool) -> (r: Vec<
        SnapshotOutput<String>,
    >)
        ensures
            outputs(r@) == self.written(
                row@,
                match line {
                    Some(text) => Some(text@),
                    None => None,
                },
                in_ramp,
            ),
    {
        let mut list: Vec<SnapshotOutput<String>> = Vec::new();
        if self.csv_path.is_some() {
            list.push(SnapshotOutput::File(row.clone()));
        }
        if !self.show_progress {
            list.push(SnapshotOutput::Stdout(row));
        } else if self.shows_progress(in_ramp) {
            match line {
                Some(text) => {
                    list.push(SnapshotOutput::Progress(shown_text(text, in_ramp)));
                },
                None => {},
            }
        }
        assert(outputs(list@) =~= self.written(
            row@,
            match line {
                Some(text) => Some(text@),
                None => None,
            },
            in_ramp,
        ));
        list
    }

    /// The results of a run, from the last snapshot of the measured stage; `total_rate` is the
    /// target of all workers together.
    pub fn results(
        self,
        snap: &StatsSnapshot,
        errors: Vec<ErrorCount>,
        total_rate: Float,
    ) -> (r: BenchmarkResults)
        ensures
            r.summary.of_requests(*snap, errors@),
            r.target_rate == total_rate,
            r.workers == self.workers,
            r.duration == self.duration,
            r.csv_path == self.csv_path,
    {
        BenchmarkResults {
            summary: BenchmarkSummary::from_snapshot(snap, errors),
            target_rate: total_rate,
            workers: self.workers,
            duration: self.duration,
            csv_path: self.csv_path,
        }
    }
}

/// The fractional figures of a progress line as text.
pub struct ProgressText {
    pub rate: String,
    pub p50_ms: String,
    pub ok_percent: String,
}

/// The default progress line.
pub fn progress_line(snap: &StatsSnapshot, text: &ProgressText) -> (r: String)
    ensures
        r@ == joined(
            seq![
                "  "@,
                decimal(snap.received_count as nat),
                " req | "@,
                text.rate@,
                " req/s | p50="@,
                text.p50_ms@,
                "ms | "@,
                text.ok_percent@,
                "% ok"@,
            ],
        ),
{
    let received: String = decimal_text(snap.received_count);
    let parts: Vec<&str> = vec![
        "  ",
        received.as_str(),
        " req | ",
        text.rate.as_str(),
        " req/s | p50=",
        text.p50_ms.as_str(),
        "ms | ",
        text.ok_percent.as_str(),
        "% ok",
    ];
    assert(slices(parts@) =~= seq![
        "  "@,
        decimal(snap.received_count as nat),
        " req | "@,
        text.rate@,
        " req/s | p50="@,
        text.p50_ms@,
        "ms | "@,
        text.ok_percent@,
        "% ok"@,
    ]);
    joined_text(parts)
}

/// A run starts all its workers before it measures, raises the rate to the target and ends the
/// ramp right before that where it ramps, clears the flag once the measured time is over, and
/// waits for every worker before it ends.
pub proof fn law_request_run_in_order<W, P>(b: Benchmark<W, P>)
    ensures
        exists|spawn: int, sleep: int|
            0 <= spawn && spawn + 1 < sleep < b.steps().len() - 3
            && #[trigger] b.steps()[spawn] == RunStep::Spawn(Role::Requesters, b.workers)
            && #[trigger] b.steps()[sleep] == RunStep::Sleep(b.duration)
            && b.steps()[sleep + 1] == RunStep::Stop(Signal::Running)
            && b.steps()[sleep + 2] == RunStep::Join(Role::Requesters)
            && (b.ramped() ==> spawn < sleep - 2 && b.steps()[sleep - 2] == (RunStep::Ramp {
                from: b.ramp_start_rate,
                to: b.rate_mode.given(),
                over: b.ramp_up->0,
            }) && b.steps()[sleep - 1] == RunStep::EndRamp),
{
    let spawn: int = if b.warmup@ == 0 {
        0
    } else {
        1
    };
    let ramp: int = if b.ramped() {
        2
    } else {
        0
    };
    let sleep = spawn + 2 + ramp;
    assert(b.steps()[spawn] == RunStep::Spawn(Role::Requesters, b.workers));
    assert(b.steps()[sleep] == RunStep::Sleep(b.duration));
}

// ---------------------------------------------------------------------------
// What a worker asks for
// ---------------------------------------------------------------------------

/// The action that a worker asks for after the events.
pub open spec fn request_asks(events: Seq<RequestEvent>) -> RequestAction<Seq<u64>, Seq<char>> {
    if events.len() == 0 {
        RequestAction::Init
    } else {
        (request_next(
            (request_run(events.drop_last(), Stage::Measured)->0).0,
            events.last(),
        )->0).1
    }
}

/// Whether an event answers an action.
pub open spec fn request_answers(
    action: RequestAction<Seq<u64>, Seq<char>>,
    event: RequestEvent,
) -> bool {
    match action {
        RequestAction::Init => event is Initialized,
        RequestAction::CheckRunning => event is Running,
        RequestAction::Acquire => event is Acquired,
        RequestAction::RecordSent(_) => event is Recorded,
        RequestAction::Work => event is Worked,
        RequestAction::RecordBatch(_, _) => event is Recorded,
        RequestAction::RecordError(_, _) => event is Recorded,
        RequestAction::Cleanup => event is CleanedUp,
        RequestAction::Finish => false,
    }
}

/// A new worker asks for its state. A step follows the transition for its event, and where
/// there is none gives nothing and leaves the worker as it is.
pub proof fn law_request_step(
    w: &mut RequestWorker,
    event: RequestEvent,
    r: Option<RequestAction<Vec<u64>, String>>,
    new: (RequestWorker, RequestAction<Vec<u64>, String>),
)
    requires
        call_ensures(RequestWorker::step, (w, event), r),
        call_ensures(RequestWorker::start, (), new),
    ensures
        r is Some <==> request_next(old(w)@, event) is Some,
        r is Some ==> final(w)@ == (request_next(old(w)@, event)->0).0,
        r is Some ==> r->0@ == (request_next(old(w)@, event)->0).1,
        r is None ==> final(w)@ == old(w)@,
        new.0@.phase is Starting,
        new.0@.ramp.len() == 0,
        new.0@.measured.len() == 0,
        new.1 is Init,
{
}

/// Actions are seen as they are.
pub proof fn law_request_actions_are_seen(a: RequestAction<Vec<u64>, String>)
    ensures
        a is Init <==> a@ is Init,
        a is CheckRunning <==> a@ is CheckRunning,
        a is Acquire <==> a@ is Acquire,
        a is Work <==> a@ is Work,
        a is Cleanup <==> a@ is Cleanup,
        a is Finish <==> a@ is Finish,
        a is RecordSent <==> a@ is RecordSent,
        a is RecordBatch <==> a@ is RecordBatch,
        a is RecordError <==> a@ is RecordError,
        a matches RequestAction::RecordSent(stage) ==> a@ == RequestAction::<
            Seq<u64>,
            Seq<char>,
        >::RecordSent(stage),
        a matches RequestAction::RecordBatch(stage, batch) ==> a@ == RequestAction::<
            Seq<u64>,
            Seq<char>,
        >::RecordBatch(stage, batch@),
        a matches RequestAction::RecordError(stage, reason) ==> a@ == RequestAction::<
            Seq<u64>,
            Seq<char>,
        >::RecordError(stage, reason@),
{
}

/// A worker goes on just where it gets an answer to what it asked for.
pub proof fn law_request_worker_takes_answers(events: Seq<RequestEvent>, event: RequestEvent)
    requires
        request_run(events, Stage::Measured) is Some,
    ensures
        request_run(events.push(event), Stage::Measured) is Some <==> request_answers(
            request_asks(events),
            event,
        ),
{
    assert(events.push(event).drop_last() =~= events);
}

/// What a worker asks for next. It reads the flag before every permit, counts and works once
/// for every permit, and records what the work returned for the stage of that permit; it goes
/// on while the flag is set, and once that is cleared reports what it has and cleans up.
pub proof fn law_request_worker_asks_next(events: Seq<RequestEvent>, event: RequestEvent)
    requires
        request_run(events.push(event), Stage::Measured) is Some,
    ensures
        ({
            let asked = request_asks(events);
            let next = request_asks(events.push(event));
            &&& event is Initialized ==> next is CheckRunning
            &&& event == RequestEvent::Running(true) ==> next is Acquire
            &&& event == RequestEvent::Running(false) ==> next is RecordBatch || next is Cleanup
            &&& event matches RequestEvent::Acquired(stage) ==> next == RequestAction::<
                Seq<u64>,
                Seq<char>,
            >::RecordSent(stage)
            &&& asked is RecordSent ==> next is Work
            &&& event matches RequestEvent::Worked(result) ==> {
                &&& events.len() >= 2
                &&& events[events.len() - 2] matches RequestEvent::Acquired(stage) && match result {
                    WorkResult::Success(_) => next is CheckRunning || (next is RecordBatch
                        && next->RecordBatch_0 == stage),
                    WorkResult::Error(reason) => next == RequestAction::<
                        Seq<u64>,
                        Seq<char>,
                    >::RecordError(stage, reason@),
                }
            }
            &&& asked is RecordError ==> next is CheckRunning
            &&& asked is RecordBatch ==> if events.contains(RequestEvent::Running(false)) {
                next is RecordBatch || next is Cleanup
            } else {
                next is CheckRunning
            }
            &&& event is CleanedUp ==> next is Finish
        }),
{
    let all = events.push(event);
    assert(all.drop_last() =~= events);
    lemma_told(events);
    if event is Worked {
        let one = events.drop_last();
        let two = one.drop_last();
        assert(request_run(events, Stage::Measured) is Some);
        assert(request_run(one, Stage::Measured) is Some);
        assert(request_run(two, Stage::Measured) is Some);
        assert(one.last() == events[events.len() - 2]);
    }
}

/// A worker winds up just where it was told that the run is over.
proof fn lemma_told(events: Seq<RequestEvent>)
    requires
        request_run(events, Stage::Measured) is Some,
    ensures
        ({
            let phase = (request_run(events, Stage::Measured)->0).0.phase;
            events.contains(RequestEvent::Running(false)) <==> phase is Flushing
                || phase is Cleaning || phase is Finished
        }),
    decreases events.len(),
{
    if events.len() > 0 {
        let rest = events.drop_last();
        lemma_told(rest);
        let over = RequestEvent::Running(false);
        if rest.contains(over) {
            let k = choose|k: int| 0 <= k < rest.len() && rest[k] == over;
            assert(events[k] == over);
        }
        if events.contains(over) && !rest.contains(over) {
            let k = choose|k: int| 0 <= k < events.len() && events[k] == over;
            assert(k == events.len() - 1) by {
                if k < rest.len() {
                    assert(rest[k] == over);
                }
            }
        }
        if events.last() == over {
            assert(events[events.len() - 1] == over);
        }
    }
}

/// A worker reports sixty-four latencies at a time while the run goes on, and never keeps as
/// many back.
pub proof fn law_batches_hold_sixty_four(events: Seq<RequestEvent>, stage: Stage)
    requires
        request_run(events, stage) is Some,
    ensures
        (request_run(events, stage)->0).0.ramp.len() < 64,
        (request_run(events, stage)->0).0.measured.len() < 64,
        events.len() > 0 && events.last() is Worked ==> (request_asks(
            events,
        ) matches RequestAction::RecordBatch(_, batch) ==> batch.len() == 64),
{
    lemma_one_worker(events, stage);
    lemma_one_worker(events, Stage::Ramp);
    law_request_worker_accounts(events, Stage::Measured);
    law_request_worker_accounts(events, Stage::Ramp);
    if events.len() > 0 {
        lemma_one_worker(events.drop_last(), Stage::Ramp);
        law_request_worker_accounts(events.drop_last(), Stage::Measured);
        law_request_worker_accounts(events.drop_last(), Stage::Ramp);
    }
}

// ---------------------------------------------------------------------------
// What the settings say
// ---------------------------------------------------------------------------

/// Every setter sets its own setting to what is given, and leaves all others as they are.
pub proof fn law_request_setters<W, P>(
    b: Benchmark<W, P>,
    rate: Float,
    n: usize,
    span: Span,
    secs: u64,
    path: String,
    on: bool,
    r: Benchmark<W, P>,
)
    ensures
        call_ensures(Benchmark::<W, P>::rate, (b, rate), r) ==> r == (Benchmark {
            rate_mode: RateMode::Total(rate),
            ..b
        }),
        call_ensures(Benchmark::<W, P>::rate_per_worker, (b, rate), r) ==> r == (Benchmark {
            rate_mode: RateMode::PerWorker(rate),
            ..b
        }),
        call_ensures(Benchmark::<W, P>::workers, (b, n), r) ==> r == (Benchmark {
            workers: r.workers,
            ..b
        }) && (n >= 1 ==> r.workers == n) && (n == 0 ==> r.workers == 1),
        call_ensures(Benchmark::<W, P>::ramp_up, (b, span), r) ==> r == (Benchmark {
            ramp_up: Some(span),
            ..b
        }),
        call_ensures(Benchmark::<W, P>::ramp_start_rate, (b, rate), r) ==> r == (Benchmark {
            ramp_start_rate: r.ramp_start_rate,
            ..b
        }) && (rate.bits <= 0x7ff0_0000_0000_0000 ==> r.ramp_start_rate == rate) && (rate.bits
            > 0x7ff0_0000_0000_0000 && rate.bits != 0x8000_0000_0000_0000
            ==> r.ramp_start_rate.bits == 0),
        call_ensures(Benchmark::<W, P>::burst_factor, (b, rate), r) ==> r == (Benchmark {
            burst_factor: r.burst_factor,
            ..b
        }) && (0x3f50_624d_d2f1_a9fc <= rate.bits <= 0x408f_4000_0000_0000 ==> r.burst_factor
            == rate) && (rate.bits < 0x3f50_624d_d2f1_a9fc || 0x8000_0000_0000_0000 <= rate.bits
            <= 0xfff0_0000_0000_0000 ==> r.burst_factor.bits == 0x3f50_624d_d2f1_a9fc) && (
        0x408f_4000_0000_0000 < rate.bits <= 0x7ff0_0000_0000_0000 ==> r.burst_factor.bits
            == 0x408f_4000_0000_0000) && (0x7ff0_0000_0000_0000 < rate.bits < 0x8000_0000_0000_0000
            || rate.bits > 0xfff0_0000_0000_0000 ==> r.burst_factor == rate),
        call_ensures(Benchmark::<W, P>::show_ramp_progress, (b, on), r) ==> r == (Benchmark {
            show_ramp_progress: on,
            ..b
        }),
        call_ensures(Benchmark::<W, P>::duration, (b, span), r) ==> r == (Benchmark {
            duration: span,
            ..b
        }),
        call_ensures(Benchmark::<W, P>::duration_secs, (b, secs), r) ==> r == (Benchmark {
            duration: Span { secs, nanos: 0 },
            ..b
        }),
        call_ensures(Benchmark::<W, P>::warmup, (b, span), r) ==> r == (Benchmark {
            warmup: span,
            ..b
        }),
        call_ensures(Benchmark::<W, P>::no_warmup, (b,), r) ==> r == (Benchmark {
            warmup: Span { secs: 0, nanos: 0 },
            ..b
        }),
        call_ensures(Benchmark::<W, P>::snapshot_interval, (b, span), r) ==> r == (Benchmark {
            snapshot_interval: span,
            ..b
        }),
        call_ensures(Benchmark::<W, P>::snapshot_interval_secs, (b, secs), r) ==> r == (Benchmark {
            snapshot_interval: Span { secs, nanos: 0 },
            ..b
        }),
        call_ensures(Benchmark::<W, P>::csv, (b, path), r) ==> r == (Benchmark {
            csv_path: Some(path),
            ..b
        }),
        call_ensures(Benchmark::<W, P>::progress, (b, on), r) ==> r == (Benchmark {
            show_progress: on,
            ..b
        }),
{
    law_or_zero(rate, rate.spec_or_zero());
    law_burst_range(rate);
}

/// The work and the formatter are taken on as they are, with all settings kept.
pub proof fn law_request_parts<W, P, W2, P2>(
    b: Benchmark<W, P>,
    work: W2,
    f: P2,
    with_work: Benchmark<W2, P>,
    with_progress: Benchmark<W, P2>,
)
    requires
        call_ensures(Benchmark::<W, P>::work::<W2>, (b, work), with_work),
        call_ensures(Benchmark::<W, P>::on_progress::<P2>, (b, f), with_progress),
    ensures
        with_work == (Benchmark {
            rate_mode: b.rate_mode,
            workers: b.workers,
            ramp_up: b.ramp_up,
            ramp_start_rate: b.ramp_start_rate,
            burst_factor: b.burst_factor,
            show_ramp_progress: b.show_ramp_progress,
            duration: b.duration,
            warmup: b.warmup,
            snapshot_interval: b.snapshot_interval,
            work: Some(work),
            csv_path: b.csv_path,
            show_progress: b.show_progress,
            progress_fn: b.progress_fn,
        }),
        with_progress == (Benchmark {
            rate_mode: b.rate_mode,
            workers: b.workers,
            ramp_up: b.ramp_up,
            ramp_start_rate: b.ramp_start_rate,
            burst_factor: b.burst_factor,
            show_ramp_progress: b.show_ramp_progress,
            duration: b.duration,
            warmup: b.warmup,
            snapshot_interval: b.snapshot_interval,
            work: b.work,
            csv_path: b.csv_path,
            show_progress: b.show_progress,
            progress_fn: Some(f),
        }),
{
}

/// The settings where nothing is given: an unlimited rate, one worker, no ramp, ten seconds
/// after a tenth of a second of warmup, a snapshot per second, progress shown.
pub proof fn law_request_defaults(b: Benchmark<(), ()>)
    requires
        call_ensures(Benchmark::<(), ()>::new, (), b) || call_ensures(
            <Benchmark<(), ()> as Default>::default,
            (),
            b,
        ),
    ensures
        b.rate_mode matches RateMode::Total(rate) && rate.bits == 0,
        b.workers == 1,
        b.ramp_up is None,
        b.ramp_start_rate.bits == 0,
        b.burst_factor.bits == 0x3fb9_9999_9999_999a,
        b.show_ramp_progress,
        b.duration.secs * 1_000_000_000 + b.duration.nanos == 10_000_000_000,
        b.warmup.secs * 1_000_000_000 + b.warmup.nanos == 100_000_000,
        b.snapshot_interval.secs * 1_000_000_000 + b.snapshot_interval.nanos == 1_000_000_000,
        b.work is None,
        b.csv_path is None,
        b.show_progress,
        b.progress_fn is None,
{
}

/// The settings from the command line are taken on one by one. A total rate wins over a rate
/// per worker, and without either the rate is unlimited.
pub proof fn law_request_from_config(config: BenchmarkConfig, b: Benchmark<(), ()>)
    requires
        call_ensures(Benchmark::<(), ()>::from_config, (config,), b),
    ensures
        config.rate matches Some(rate) ==> b.rate_mode == RateMode::Total(rate),
        config.rate is None ==> (config.rate_per_worker matches Some(rate) ==> b.rate_mode
            == RateMode::PerWorker(rate)),
        config.rate is None && config.rate_per_worker is None ==> (
        b.rate_mode matches RateMode::Total(rate) && rate.bits == 0),
        config.workers >= 1 ==> b.workers == config.workers,
        config.workers == 0 ==> b.workers == 1,
        b.ramp_up is Some <==> config.ramp_up is Some,
        config.ramp_up matches Some(secs) ==> b.ramp_up == Some(Span { secs, nanos: 0 }),
        config.ramp_start_rate.bits <= 0x7ff0_0000_0000_0000 ==> b.ramp_start_rate
            == config.ramp_start_rate,
        config.ramp_start_rate.bits > 0x7ff0_0000_0000_0000 && config.ramp_start_rate.bits
            != 0x8000_0000_0000_0000 ==> b.ramp_start_rate.bits == 0,
        0x3f50_624d_d2f1_a9fc <= config.burst_factor.bits <= 0x408f_4000_0000_0000
            ==> b.burst_factor == config.burst_factor,
        config.burst_factor.bits < 0x3f50_624d_d2f1_a9fc ==> b.burst_factor.bits
            == 0x3f50_624d_d2f1_a9fc,
        0x408f_4000_0000_0000 < config.burst_factor.bits <= 0x7ff0_0000_0000_0000
            ==> b.burst_factor.bits == 0x408f_4000_0000_0000,
        b.show_ramp_progress == !config.hide_ramp_progress,
        b.duration == (Span { secs: config.duration, nanos: 0 }),
        b.warmup.secs * 1_000_000_000 + b.warmup.nanos == 100_000_000,
        b.snapshot_interval.secs * 1_000_000_000 + b.snapshot_interval.nanos == 1_000_000_000,
        b.work is None,
        b.csv_path == config.csv,
        b.show_progress == !config.no_progress,
        b.progress_fn is None,
{
    law_or_zero(config.ramp_start_rate, config.ramp_start_rate.spec_or_zero());
    law_burst_range(config.burst_factor);
}

/// The rate as given, whether it is unlimited, and the rate of all workers together.
pub proof fn law_rate_modes(mode: RateMode, scaled: Float, r: Float, unlimited: bool)
    ensures
        call_ensures(RateMode::rate, (&mode,), r) ==> r == (match mode {
            RateMode::Total(rate) => rate,
            RateMode::PerWorker(rate) => rate,
        }),
        call_ensures(RateMode::total_rate, (&mode, scaled), r) ==> r == (match mode {
            RateMode::Total(rate) => rate,
            RateMode::PerWorker(_) => scaled,
        }),
        call_ensures(RateMode::is_unlimited, (&mode,), unlimited) ==> unlimited == ({
            let rate = match mode {
                RateMode::Total(rate) => rate,
                RateMode::PerWorker(rate) => rate,
            };
            rate.bits == 0 || 0x8000_0000_0000_0000 <= rate.bits <= 0xfff0_0000_0000_0000
        }),
{
    law_positive(mode.given());
}

/// The limiter of a run: none for an unlimited rate; otherwise one for all workers or one for
/// each, as the rate is given, at the rate of the ramp's start where there is a ramp.
pub proof fn law_limiter<W, P>(b: Benchmark<W, P>, r: Limiter, ramped: bool)
    requires
        call_ensures(Benchmark::<W, P>::limiter, (&b,), r),
        call_ensures(Benchmark::<W, P>::is_ramped, (&b,), ramped),
    ensures
        ({
            let rate = match b.rate_mode {
                RateMode::Total(rate) => rate,
                RateMode::PerWorker(rate) => rate,
            };
            let unlimited = rate.bits == 0 || 0x8000_0000_0000_0000 <= rate.bits
                <= 0xfff0_0000_0000_0000;
            &&& ramped == (b.ramp_up is Some && !unlimited)
            &&& unlimited <==> r is Unlimited
            &&& !unlimited && b.ramp_up is None && b.rate_mode is Total ==> r == Limiter::Shared(
                rate,
            )
            &&& !unlimited && b.ramp_up is None && b.rate_mode is PerWorker ==> r
                == Limiter::PerWorker(rate)
            &&& ramped && b.rate_mode is Total ==> r == Limiter::RampedShared(b.ramp_start_rate)
            &&& ramped && b.rate_mode is PerWorker ==> r == Limiter::RampedPerWorker(
                b.ramp_start_rate,
            )
        }),
{
    law_positive(b.rate_mode.given());
}

// ---------------------------------------------------------------------------
// What a run does
// ---------------------------------------------------------------------------

/// The plan of a run, step by step. After the warmup all workers start, then the snapshots. Where
/// a limited rate ramps, it rises to the target, and the ramp ends right after. Then the run
/// measures for its whole duration. The flag is cleared exactly once, right after that; nothing
/// stops before. Then all workers are waited for, and then the snapshots.
pub proof fn law_request_plan<W, P>(b: Benchmark<W, P>, plan: Vec<RunStep>)
    requires
        call_ensures(Benchmark::<W, P>::run_plan, (&b,), plan),
    ensures
        ({
            let rate = match b.rate_mode {
                RateMode::Total(rate) => rate,
                RateMode::PerWorker(rate) => rate,
            };
            let unlimited = rate.bits == 0 || 0x8000_0000_0000_0000 <= rate.bits
                <= 0xfff0_0000_0000_0000;
            let ramps = b.ramp_up is Some && !unlimited;
            let warm = b.warmup.secs > 0 || b.warmup.nanos > 0;
            let start: int = if warm {
                1
            } else {
                0
            };
            let sleep: int = start + 2 + if ramps {
                2int
            } else {
                0int
            };
            &&& plan@.len() == sleep + 4
            &&& forall|i: int|
                0 <= i < plan@.len() ==> {
                    let step = #[trigger] plan@[i];
                    &&& step == RunStep::Stop(Signal::Running) <==> i == sleep + 1
                    &&& step is Stop ==> i == sleep + 1
                    &&& step is Sleep <==> i == sleep || (warm && i == 0)
                    &&& step is Spawn <==> i == start
                    &&& step is SpawnSnapshots <==> i == start + 1
                    &&& step is Ramp <==> ramps && i == sleep - 2
                    &&& step is EndRamp <==> ramps && i == sleep - 1
                    &&& step is Join <==> i == sleep + 2
                    &&& step is JoinSnapshots <==> i == sleep + 3
                    &&& step !is Drain
                }
            &&& warm ==> plan@[0] == RunStep::Sleep(b.warmup)
            &&& plan@[start] == RunStep::Spawn(Role::Requesters, b.workers)
            &&& ramps ==> plan@[sleep - 2] == (RunStep::Ramp {
                from: b.ramp_start_rate,
                to: rate,
                over: b.ramp_up->0,
            })
            &&& plan@[sleep] == RunStep::Sleep(b.duration)
            &&& plan@[sleep + 2] == RunStep::Join(Role::Requesters)
        }),
{
    law_positive(b.rate_mode.given());
}

/// The header goes to the output file, where there is one, and to standard output where raw rows
/// replace the progress lines. Progress shows in the ramp only where that is asked for.
pub proof fn law_request_opening<W, P>(
    b: Benchmark<W, P>,
    header: String,
    r: Vec<SnapshotOutput<String>>,
    in_ramp: bool,
    shows: bool,
)
    requires
        call_ensures(Benchmark::<W, P>::snapshot_opening, (&b, header), r),
        call_ensures(Benchmark::<W, P>::shows_progress, (&b, in_ramp), shows),
    ensures
        ({
            let files: int = if b.csv_path is Some {
                1
            } else {
                0
            };
            &&& r@.len() == files + (if b.show_progress {
                0int
            } else {
                1int
            })
            &&& b.csv_path is Some ==> (r@[0] matches SnapshotOutput::File(text) && text@
                == header@)
            &&& !b.show_progress ==> (r@[files] matches SnapshotOutput::Stdout(text) && text@
                == header@)
        }),
        shows == (b.show_progress && (!in_ramp || b.show_ramp_progress)),
{
    lemma_outputs(r@);
}

/// A snapshot writes its row to the output file, where there is one. Without progress the row
/// goes to standard output; with it the line does, where it is shown and there is one, and in
/// the ramp the line is marked.
pub proof fn law_request_snapshot_writes<W, P>(
    b: Benchmark<W, P>,
    row: String,
    line: Option<String>,
    in_ramp: bool,
    r: Vec<SnapshotOutput<String>>,
)
    requires
        call_ensures(Benchmark::<W, P>::snapshot, (&b, row, line, in_ramp), r),
    ensures
        ({
            let files: int = if b.csv_path is Some {
                1
            } else {
                0
            };
            let shown = b.show_progress && (!in_ramp || b.show_ramp_progress) && line is Some;
            &&& r@.len() == files + (if shown || !b.show_progress {
                1int
            } else {
                0int
            })
            &&& b.csv_path is Some ==> (r@[0] matches SnapshotOutput::File(text) && text@ == row@)
            &&& !b.show_progress ==> (r@[files] matches SnapshotOutput::Stdout(text) && text@
                == row@)
            &&& shown ==> (r@[files] matches SnapshotOutput::Progress(text) && text@ == (
            if in_ramp {
                "[RAMP] "@ + line->0@
            } else {
                line->0@
            }))
        }),
{
    lemma_outputs(r@);
    reveal_with_fuel(joined, 3);
    if let Some(text) = line {
        assert(joined(seq!["[RAMP] "@, text@]) =~= "[RAMP] "@ + text@);
    }
}

/// The results hold the summary of the measured stage, and the settings as they were.
pub proof fn law_request_results<W, P>(
    b: Benchmark<W, P>,
    snap: StatsSnapshot,
    errors: Vec<ErrorCount>,
    total_rate: Float,
    r: BenchmarkResults,
)
    requires
        call_ensures(Benchmark::<W, P>::results, (b, &snap, errors, total_rate), r),
    ensures
        r.summary.total_ops == snap.sent_count,
        r.summary.successes == snap.received_count,
        r.summary.errors == snap.error_count,
        r.summary.throughput == snap.total_throughput,
        r.summary.latency_p50_ns == snap.latency_ns_p50,
        r.summary.latency_p95_ns == snap.latency_ns_p95,
        r.summary.latency_p99_ns == snap.latency_ns_p99,
        r.summary.error_breakdown@ == errors@,
        r.summary.of_requests(snap, errors@),
        r.target_rate == total_rate,
        r.workers == b.workers,
        r.duration == b.duration,
        r.csv_path == b.csv_path,
{
}

/// The default progress line shows the responses so far, and the figures that are given.
pub proof fn law_request_progress_line(snap: StatsSnapshot, text: ProgressText, r: String)
    requires
        call_ensures(progress_line, (&snap, &text), r),
    ensures
        r@ == "  "@ + decimal(snap.received_count as nat) + " req | "@ + text.rate@
            + " req/s | p50="@ + text.p50_ms@ + "ms | "@ + text.ok_percent@ + "% ok"@,
{
    reveal_with_fuel(joined, 12);
    assert(r@ =~= "  "@ + decimal(snap.received_count as nat) + " req | "@ + text.rate@
        + " req/s | p50="@ + text.p50_ms@ + "ms | "@ + text.ok_percent@ + "% ok"@);
}

} // verus!
