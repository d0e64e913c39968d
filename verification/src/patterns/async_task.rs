//! Submit-and-poll pattern.
//!
//! Submitters create tasks at a controlled rate; pollers check them for completion.

use crate::float::{
    law_equal_quantities, law_or_zero, lemma_whole, whole, Float, FIVE_HUNDRED, ONE_TENTH,
};
use crate::metrics::errors::{
    breaks_down, count_of, counted_in, law_breakdown_adds_up, law_counts_occurrences, occurrences,
    tally, ErrorCount,
};
use crate::metrics::snapshot::StatsSnapshot;
use crate::sums::{
    gathered, lemma_gathered_has, lemma_gathered_none, lemma_gathered_update, lemma_total_has,
    lemma_total_same, lemma_total_update, total,
};
use crate::patterns::work::{monus, AsyncTaskResults, BenchmarkSummary, PollResult};
use crate::patterns::{clamp_burst, law_burst_range, spec_clamp_burst, DualSnapshotConfig, Role,
    RunStep, Signal, Stage};
use crate::span::Span;
use crate::text::{comma_line, comma_separated, commas, decimal, decimal_text, joined, joined_text,
    law_columns, lemma_decimal_has_no_comma, lemma_no_comma, slices, texts};
use vstd::multiset::Multiset;
use vstd::prelude::*;
use vstd::string::*;

verus! {

// ---------------------------------------------------------------------------
// Tasks in flight
// ---------------------------------------------------------------------------

/// A submitted task.
#[derive(Clone, Copy, Debug, PartialEq, Eq, Structural)]
pub struct Task {
    /// The number that the submission returned.
    pub id: u64,
    /// The stage of the run in which it was submitted.
    pub stage: Stage,
}

/// Where submitted tasks are that are not settled yet.
pub struct Ledger {
    /// Tasks in no poller's hands.
    pub pending: Seq<Task>,
    /// The number of tasks in pollers' hands.
    pub held: nat,
}

impl Ledger {
    /// The number of tasks in flight.
    pub open spec fn in_flight(self) -> nat {
        self.pending.len() + self.held
    }

    /// The ledger once a task is put in.
    pub open spec fn pushed(self, task: Task) -> Ledger {
        Ledger { pending: self.pending.push(task), ..self }
    }

    /// The ledger once the latest pending task, if there is one, is taken.
    pub open spec fn popped(self) -> Ledger {
        if self.pending.len() == 0 {
            self
        } else {
            Ledger { pending: self.pending.drop_last(), held: self.held + 1 }
        }
    }

    /// The ledger once a task in a poller's hands is put back.
    pub open spec fn requeued(self, task: Task) -> Ledger {
        Ledger { pending: self.pending.push(task), held: (self.held - 1) as nat }
    }

    /// The ledger once a task in a poller's hands is settled.
    pub open spec fn settled(self) -> Ledger {
        Ledger { held: (self.held - 1) as nat, ..self }
    }
}

/// Tasks that are submitted and not settled. The latest pending one comes out first.
pub struct PendingTasks {
    tasks: Vec<Task>,
    held: usize,
}

impl View for PendingTasks {
    type V = Ledger;

    closed spec fn view(&self) -> Ledger {
        Ledger { pending: self.tasks@, held: self.held as nat }
    }
}

impl PendingTasks {
    #[verifier::type_invariant]
    spec fn well_formed(self) -> bool {
        self.tasks@.len() + self.held <= usize::MAX
    }

    /// No task.
    pub fn new() -> (r: PendingTasks)
        ensures
            r@ == (Ledger { pending: seq![], held: 0 }),
    {
        PendingTasks { tasks: Vec::new(), held: 0 }
    }

    /// Puts a task in.
    pub fn push(&mut self, task: Task)
        requires
            old(self)@.in_flight() < usize::MAX,
        ensures
            final(self)@ == old(self)@.pushed(task),
    {
        let mut tasks: Vec<Task> = Vec::new();
        std::mem::swap(&mut tasks, &mut self.tasks);
        tasks.push(task);
        *self = PendingTasks { tasks, held: self.held };
    }

    /// Takes the latest pending task into a poller's hands.
    pub fn pop(&mut self) -> (r: Option<Task>)
        ensures
            r == (if old(self)@.pending.len() == 0 {
                None
            } else {
                Some(old(self)@.pending.last())
            }),
            final(self)@ == old(self)@.popped(),
    {
        proof {
            use_type_invariant(&*self);
        }
        let mut tasks: Vec<Task> = Vec::new();
        std::mem::swap(&mut tasks, &mut self.tasks);
        let task: Option<Task> = tasks.pop();
        let held: usize = match task {
            Some(_) => self.held + 1,
            None => self.held,
        };
        *self = PendingTasks { tasks, held };
        task
    }

    /// Puts a task in a poller's hands back.
    pub fn requeue(&mut self, task: Task)
        requires
            old(self)@.held > 0,
        ensures
            final(self)@ == old(self)@.requeued(task),
    {
        proof {
            use_type_invariant(&*self);
        }
        let mut tasks: Vec<Task> = Vec::new();
        std::mem::swap(&mut tasks, &mut self.tasks);
        tasks.push(task);
        *self = PendingTasks { tasks, held: self.held - 1 };
    }

    /// Takes note that a task in a poller's hands is settled.
    pub fn settle(&mut self)
        requires
            old(self)@.held > 0,
        ensures
            final(self)@ == old(self)@.settled(),
    {
        proof {
            use_type_invariant(&*self);
        }
        self.held = self.held - 1;
    }

    /// The number of tasks in pollers' hands.
    pub fn held(&self) -> (r: usize)
        ensures
            r == self@.held,
    {
        self.held
    }

    /// The number of tasks in flight: pending, or in pollers' hands.
    pub fn in_flight(&self) -> (r: usize)
        ensures
            r == self@.in_flight(),
    {
        proof {
            use_type_invariant(self);
        }
        self.tasks.len() + self.held
    }
}

// ---------------------------------------------------------------------------
// Submitter
// ---------------------------------------------------------------------------

/// Where a submitter stands: which action it waits for, and the stage of its submission or
/// the task in its hands.
#[derive(Clone, Copy, Debug, PartialEq, Eq, Structural)]
pub enum SubmitPhase {
    Starting,
    Checking,
    Acquiring,
    Counting(Stage),
    Submitting(Stage),
    Pushing(Task),
    Recording,
    Cleaning,
    Finished,
}

/// What a submitter asks for. Figures are recorded for the stage given.
#[derive(Debug)]
pub enum SubmitAction<T> {
    /// Create the state of the submitter.
    Init,
    /// Read the submitting flag.
    CheckRunning,
    /// Wait for a permit of the rate limiter.
    Acquire,
    /// Count a task as sent.
    RecordSent(Stage),
    /// Submit one task.
    Submit,
    /// Put a submitted task among the pending ones.
    Push(Task),
    /// Record an error with its reason.
    RecordError(Stage, T),
    /// Clean the state of the submitter up.
    Cleanup,
    /// End.
    Finish,
}

impl View for SubmitAction<String> {
    type V = SubmitAction<Seq<char>>;

    open spec fn view(&self) -> SubmitAction<Seq<char>> {
        match self {
            SubmitAction::Init => SubmitAction::Init,
            SubmitAction::CheckRunning => SubmitAction::CheckRunning,
            SubmitAction::Acquire => SubmitAction::Acquire,
            SubmitAction::RecordSent(stage) => SubmitAction::RecordSent(*stage),
            SubmitAction::Submit => SubmitAction::Submit,
            SubmitAction::Push(task) => SubmitAction::Push(*task),
            SubmitAction::RecordError(stage, reason) => SubmitAction::RecordError(*stage, reason@),
            SubmitAction::Cleanup => SubmitAction::Cleanup,
            SubmitAction::Finish => SubmitAction::Finish,
        }
    }
}

/// What became of an action.
#[derive(Debug)]
pub enum SubmitEvent {
    /// The state of the submitter is there.
    Initialized,
    /// What the submitting flag said.
    Running(bool),
    /// The permit came, in this stage of the run.
    Acquired(Stage),
    /// The figures are recorded.
    Recorded,
    /// The task that was submitted; none where that failed.
    Submitted(Option<u64>),
    /// The task is among the pending ones.
    Pushed,
    /// The state of the submitter is cleaned up.
    CleanedUp,
}

/// The transition that an event causes; none where the submitter does not wait for it.
pub open spec fn submit_next(phase: SubmitPhase, event: SubmitEvent) -> Option<
    (SubmitPhase, SubmitAction<Seq<char>>),
> {
    match (phase, event) {
        (SubmitPhase::Starting, SubmitEvent::Initialized) => Some(
            (SubmitPhase::Checking, SubmitAction::CheckRunning),
        ),
        (SubmitPhase::Checking, SubmitEvent::Running(running)) => if running {
            Some((SubmitPhase::Acquiring, SubmitAction::Acquire))
        } else {
            Some((SubmitPhase::Cleaning, SubmitAction::Cleanup))
        },
        (SubmitPhase::Acquiring, SubmitEvent::Acquired(stage)) => Some(
            (SubmitPhase::Counting(stage), SubmitAction::RecordSent(stage)),
        ),
        (SubmitPhase::Counting(stage), SubmitEvent::Recorded) => Some(
            (SubmitPhase::Submitting(stage), SubmitAction::Submit),
        ),
        (SubmitPhase::Submitting(stage), SubmitEvent::Submitted(submitted)) => match submitted {
            Some(id) => Some(
                (
                    SubmitPhase::Pushing(Task { id, stage }),
                    SubmitAction::Push(Task { id, stage }),
                ),
            ),
            None => Some(
                (SubmitPhase::Recording, SubmitAction::RecordError(stage, "submit failed"@)),
            ),
        },
        (SubmitPhase::Pushing(_), SubmitEvent::Pushed) => Some(
            (SubmitPhase::Checking, SubmitAction::CheckRunning),
        ),
        (SubmitPhase::Recording, SubmitEvent::Recorded) => Some(
            (SubmitPhase::Checking, SubmitAction::CheckRunning),
        ),
        (SubmitPhase::Cleaning, SubmitEvent::CleanedUp) => Some(
            (SubmitPhase::Finished, SubmitAction::Finish),
        ),
        _ => None,
    }
}

/// One submitter of a run.
pub struct SubmitWorker {
    phase: SubmitPhase,
}

impl View for SubmitWorker {
    type V = SubmitPhase;

    closed spec fn view(&self) -> SubmitPhase {
        self.phase
    }
}

impl SubmitWorker {
    /// A submitter and its first action.
    pub fn start() -> (r: (SubmitWorker, SubmitAction<String>))
        ensures
            r.0@ is Starting,
            r.1 is Init,
    {
        (SubmitWorker { phase: SubmitPhase::Starting }, SubmitAction::Init)
    }

    /// Takes in what became of the last action and names the next; `None`, with the submitter
    /// unchanged, where the event does not belong to the last action.
    pub fn step(&mut self, event: SubmitEvent) -> (r: Option<SubmitAction<String>>)
        ensures
            match submit_next(old(self)@, event) {
                Some((phase, action)) => final(self)@ == phase && r is Some && r->0@ == action,
                None => r is None && final(self)@ == old(self)@,
            },
    {
        let (phase, action) = match (self.phase, event) {
            (SubmitPhase::Starting, SubmitEvent::Initialized) => (
                SubmitPhase::Checking,
                SubmitAction::CheckRunning,
            ),
            (SubmitPhase::Checking, SubmitEvent::Running(true)) => (
                SubmitPhase::Acquiring,
                SubmitAction::Acquire,
            ),
            (SubmitPhase::Checking, SubmitEvent::Running(false)) => (
                SubmitPhase::Cleaning,
                SubmitAction::Cleanup,
            ),
            (SubmitPhase::Acquiring, SubmitEvent::Acquired(stage)) => (
                SubmitPhase::Counting(stage),
                SubmitAction::RecordSent(stage),
            ),
            (SubmitPhase::Counting(stage), SubmitEvent::Recorded) => (
                SubmitPhase::Submitting(stage),
                SubmitAction::Submit,
            ),
            (SubmitPhase::Submitting(stage), SubmitEvent::Submitted(Some(id))) => (
                SubmitPhase::Pushing(Task { id, stage }),
                SubmitAction::Push(Task { id, stage }),
            ),
            (SubmitPhase::Submitting(stage), SubmitEvent::Submitted(None)) => (
                SubmitPhase::Recording,
                SubmitAction::RecordError(stage, "submit failed".to_owned()),
            ),
            (SubmitPhase::Pushing(_), SubmitEvent::Pushed) => (
                SubmitPhase::Checking,
                SubmitAction::CheckRunning,
            ),
            (SubmitPhase::Recording, SubmitEvent::Recorded) => (
                SubmitPhase::Checking,
                SubmitAction::CheckRunning,
            ),
            (SubmitPhase::Cleaning, SubmitEvent::CleanedUp) => (
                SubmitPhase::Finished,
                SubmitAction::Finish,
            ),
            _ => {
                return None;
            },
        };
        self.phase = phase;
        Some(action)
    }
}

/// What a submitter has done so far in one stage of the run, and with its state.
pub struct SubmitTally {
    /// States created.
    pub created: nat,
    /// States cleaned up.
    pub cleaned: nat,
    /// Permits that came.
    pub acquired: nat,
    /// Tasks counted as sent.
    pub sent: nat,
    /// What the submissions returned, in order.
    pub results: Seq<Option<u64>>,
    /// Tasks put among the pending ones, in order.
    pub pushed: Seq<Task>,
    /// Reasons recorded as errors, in order.
    pub failed: Seq<Seq<char>>,
}

impl SubmitTally {
    /// What a submitter has done in `stage` after one more event, which came in `phase`, and
    /// the action it led to.
    pub open spec fn after(
        self,
        stage: Stage,
        phase: SubmitPhase,
        event: SubmitEvent,
        action: SubmitAction<Seq<char>>,
    ) -> Self {
        SubmitTally {
            created: if event is Initialized {
                self.created + 1
            } else {
                self.created
            },
            cleaned: if event is CleanedUp {
                self.cleaned + 1
            } else {
                self.cleaned
            },
            acquired: if event == SubmitEvent::Acquired(stage) {
                self.acquired + 1
            } else {
                self.acquired
            },
            sent: if action == SubmitAction::<Seq<char>>::RecordSent(stage) {
                self.sent + 1
            } else {
                self.sent
            },
            results: match event {
                SubmitEvent::Submitted(submitted) => if phase == SubmitPhase::Submitting(stage) {
                    self.results.push(submitted)
                } else {
                    self.results
                },
                _ => self.results,
            },
            pushed: match action {
                SubmitAction::Push(task) => if task.stage == stage {
                    self.pushed.push(task)
                } else {
                    self.pushed
                },
                _ => self.pushed,
            },
            failed: match action {
                SubmitAction::RecordError(of, reason) => if of == stage {
                    self.failed.push(reason)
                } else {
                    self.failed
                },
                _ => self.failed,
            },
        }
    }
}

/// The submitter and what it has done in `stage` after the events, where it accepts them all.
pub open spec fn submit_run(events: Seq<SubmitEvent>, stage: Stage) -> Option<
    (SubmitPhase, SubmitTally),
>
    decreases events.len(),
{
    if events.len() == 0 {
        Some(
            (
                SubmitPhase::Starting,
                SubmitTally {
                    created: 0,
                    cleaned: 0,
                    acquired: 0,
                    sent: 0,
                    results: seq![],
                    pushed: seq![],
                    failed: seq![],
                },
            ),
        )
    } else {
        match submit_run(events.drop_last(), stage) {
            Some((phase, t)) => match submit_next(phase, events.last()) {
                Some((phase2, action)) => Some(
                    (phase2, t.after(stage, phase, events.last(), action)),
                ),
                None => None,
            },
            None => None,
        }
    }
}

/// The tasks of the submissions that succeeded, in order.
pub open spec fn submitted_tasks(results: Seq<Option<u64>>, stage: Stage) -> Seq<Task>
    decreases results.len(),
{
    if results.len() == 0 {
        seq![]
    } else {
        match results.last() {
            Some(id) => submitted_tasks(results.drop_last(), stage).push(Task { id, stage }),
            None => submitted_tasks(results.drop_last(), stage),
        }
    }
}

/// The reasons of the submissions that failed: the same for each.
pub open spec fn submit_failures(results: Seq<Option<u64>>) -> Seq<Seq<char>>
    decreases results.len(),
{
    if results.len() == 0 {
        seq![]
    } else if results.last() is Some {
        submit_failures(results.drop_last())
    } else {
        submit_failures(results.drop_last()).push("submit failed"@)
    }
}

/// Every task that is sent has its own permit. The tasks that become pending are those that
/// the submissions returned, in order, and every submission that failed is recorded as an
/// error.
pub proof fn law_submitter_accounts(events: Seq<SubmitEvent>, stage: Stage)
    requires
        submit_run(events, stage) is Some,
    ensures
        ({
            let (phase, t) = submit_run(events, stage)->0;
            &&& t.sent == t.acquired
            &&& t.pushed == submitted_tasks(t.results, stage)
            &&& t.failed == submit_failures(t.results)
            &&& t.results.len() == t.pushed.len() + t.failed.len()
            &&& t.sent == t.results.len() + if phase == SubmitPhase::Counting(stage) || phase
                == SubmitPhase::Submitting(stage) {
                1int
            } else {
                0int
            }
        }),
    decreases events.len(),
{
    if events.len() > 0 {
        law_submitter_accounts(events.drop_last(), stage);
        let (phase, t) = submit_run(events.drop_last(), stage)->0;
        let (phase2, t2) = submit_run(events, stage)->0;
        if t2.results.len() > t.results.len() {
            assert(t2.results.drop_last() =~= t.results);
        }
    }
}

/// A submitter creates its state once, before anything else, and cleans it up once, at the end.
pub proof fn law_submitter_lifecycle(events: Seq<SubmitEvent>, stage: Stage)
    requires
        submit_run(events, stage) is Some,
    ensures
        ({
            let (phase, t) = submit_run(events, stage)->0;
            &&& t.created == if phase is Starting {
                0nat
            } else {
                1nat
            }
            &&& t.cleaned == if phase is Finished {
                1nat
            } else {
                0nat
            }
            &&& phase is Starting ==> t.acquired == 0 && t.sent == 0
        }),
    decreases events.len(),
{
    if events.len() > 0 {
        law_submitter_lifecycle(events.drop_last(), stage);
    }
}

/// Once a submitter has seen that submitting is over it submits nothing more.
pub proof fn law_submitter_stops(events: Seq<SubmitEvent>, more: Seq<SubmitEvent>, stage: Stage)
    requires
        submit_run(events.push(SubmitEvent::Running(false)), stage) is Some,
        submit_run(events.push(SubmitEvent::Running(false)) + more, stage) is Some,
    ensures
        ({
            let told = events.push(SubmitEvent::Running(false));
            let (phase, t) = submit_run(told, stage)->0;
            let (phase2, t2) = submit_run(told + more, stage)->0;
            &&& t2.acquired == t.acquired
            &&& t2.sent == t.sent
            &&& t2.results == t.results
            &&& t2.pushed == t.pushed
            &&& phase2 is Cleaning || phase2 is Finished
        }),
    decreases more.len(),
{
    let told = events.push(SubmitEvent::Running(false));
    if more.len() == 0 {
        assert(told + more =~= told);
        assert(told.drop_last() =~= events);
    } else {
        assert((told + more).drop_last() =~= told + more.drop_last());
        law_submitter_stops(events, more.drop_last(), stage);
    }
}

// ---------------------------------------------------------------------------
// Poller
// ---------------------------------------------------------------------------

/// Where a poller stands: which action it waits for, and the task in its hands.
#[derive(Clone, Copy, Debug, PartialEq, Eq, Structural)]
pub enum PollPhase {
    Starting,
    Checking,
    Popping,
    Polling(Task),
    Recording(Task),
    Settling(Task),
    Requeuing(Task),
    Sleeping,
    Yielding,
    Cleaning,
    Finished,
}

/// What a poller asks for. Figures are recorded for the stage given.
#[derive(Debug)]
pub enum PollAction<T> {
    /// Create the state of the poller.
    Init,
    /// Read the running flag.
    CheckRunning,
    /// Take a task out of the pending ones.
    Pop,
    /// Poll a task.
    Poll(Task),
    /// Record a completion with its latency.
    RecordReceived(Stage, u64),
    /// Record an error with its reason.
    RecordError(Stage, T),
    /// Take note that the task in the poller's hands is settled.
    Settle,
    /// Put a task back among the pending ones.
    Requeue(Task),
    /// Let time pass.
    Sleep(Span),
    /// Let others run.
    Yield,
    /// Clean the state of the poller up.
    Cleanup,
    /// End.
    Finish,
}

impl View for PollAction<String> {
    type V = PollAction<Seq<char>>;

    open spec fn view(&self) -> PollAction<Seq<char>> {
        match self {
            PollAction::Init => PollAction::Init,
            PollAction::CheckRunning => PollAction::CheckRunning,
            PollAction::Pop => PollAction::Pop,
            PollAction::Poll(task) => PollAction::Poll(*task),
            PollAction::RecordReceived(stage, latency_ns) => PollAction::RecordReceived(
                *stage,
                *latency_ns,
            ),
            PollAction::RecordError(stage, reason) => PollAction::RecordError(*stage, reason@),
            PollAction::Settle => PollAction::Settle,
            PollAction::Requeue(task) => PollAction::Requeue(*task),
            PollAction::Sleep(span) => PollAction::Sleep(*span),
            PollAction::Yield => PollAction::Yield,
            PollAction::Cleanup => PollAction::Cleanup,
            PollAction::Finish => PollAction::Finish,
        }
    }
}

/// What became of an action.
#[derive(Debug)]
pub enum PollEvent {
    /// The state of the poller is there.
    Initialized,
    /// What the running flag said.
    Running(bool),
    /// The task that was taken; none where none was pending.
    Popped(Option<Task>),
    /// What the poll said.
    Polled(PollResult),
    /// The figures are recorded.
    Recorded,
    /// The task is settled.
    Settled,
    /// The task is back among the pending ones.
    Requeued,
    /// Time has passed.
    Slept,
    /// Others have run.
    Yielded,
    /// The state of the poller is cleaned up.
    CleanedUp,
}

/// The pause after a task was put back: 100 microseconds.
pub open spec fn requeue_pause() -> Span {
    Span { secs: 0, nanos: 100_000 }
}

/// The transition that an event causes; none where the poller does not wait for it.
pub open spec fn poll_next(phase: PollPhase, event: PollEvent) -> Option<
    (PollPhase, PollAction<Seq<char>>),
> {
    match (phase, event) {
        (PollPhase::Starting, PollEvent::Initialized) => Some(
            (PollPhase::Checking, PollAction::CheckRunning),
        ),
        (PollPhase::Checking, PollEvent::Running(running)) => if running {
            Some((PollPhase::Popping, PollAction::Pop))
        } else {
            Some((PollPhase::Cleaning, PollAction::Cleanup))
        },
        (PollPhase::Popping, PollEvent::Popped(popped)) => match popped {
            Some(task) => Some((PollPhase::Polling(task), PollAction::Poll(task))),
            None => Some((PollPhase::Yielding, PollAction::Yield)),
        },
        (PollPhase::Polling(task), PollEvent::Polled(result)) => match result {
            PollResult::Completed { latency_ns } => Some(
                (PollPhase::Recording(task), PollAction::RecordReceived(task.stage, latency_ns)),
            ),
            PollResult::Pending => Some((PollPhase::Requeuing(task), PollAction::Requeue(task))),
            PollResult::Error(reason) => Some(
                (PollPhase::Recording(task), PollAction::RecordError(task.stage, reason@)),
            ),
        },
        (PollPhase::Recording(task), PollEvent::Recorded) => Some(
            (PollPhase::Settling(task), PollAction::Settle),
        ),
        (PollPhase::Settling(_), PollEvent::Settled) => Some(
            (PollPhase::Checking, PollAction::CheckRunning),
        ),
        (PollPhase::Requeuing(_), PollEvent::Requeued) => Some(
            (PollPhase::Sleeping, PollAction::Sleep(requeue_pause())),
        ),
        (PollPhase::Sleeping, PollEvent::Slept) => Some(
            (PollPhase::Checking, PollAction::CheckRunning),
        ),
        (PollPhase::Yielding, PollEvent::Yielded) => Some(
            (PollPhase::Checking, PollAction::CheckRunning),
        ),
        (PollPhase::Cleaning, PollEvent::CleanedUp) => Some(
            (PollPhase::Finished, PollAction::Finish),
        ),
        _ => None,
    }
}

/// One poller of a run.
pub struct PollWorker {
    phase: PollPhase,
}

impl View for PollWorker {
    type V = PollPhase;

    closed spec fn view(&self) -> PollPhase {
        self.phase
    }
}

impl PollWorker {
    /// A poller and its first action.
    pub fn start() -> (r: (PollWorker, PollAction<String>))
        ensures
            r.0@ is Starting,
            r.1 is Init,
    {
        (PollWorker { phase: PollPhase::Starting }, PollAction::Init)
    }

    /// Takes in what became of the last action and names the next; `None`, with the poller
    /// unchanged, where the event does not belong to the last action.
    pub fn step(&mut self, event: PollEvent) -> (r: Option<PollAction<String>>)
        ensures
            match poll_next(old(self)@, event) {
                Some((phase, action)) => final(self)@ == phase && r is Some && r->0@ == action,
                None => r is None && final(self)@ == old(self)@,
            },
    {
        let (phase, action) = match (self.phase, event) {
            (PollPhase::Starting, PollEvent::Initialized) => (
                PollPhase::Checking,
                PollAction::CheckRunning,
            ),
            (PollPhase::Checking, PollEvent::Running(true)) => (
                PollPhase::Popping,
                PollAction::Pop,
            ),
            (PollPhase::Checking, PollEvent::Running(false)) => (
                PollPhase::Cleaning,
                PollAction::Cleanup,
            ),
            (PollPhase::Popping, PollEvent::Popped(Some(task))) => (
                PollPhase::Polling(task),
                PollAction::Poll(task),
            ),
            (PollPhase::Popping, PollEvent::Popped(None)) => (
                PollPhase::Yielding,
                PollAction::Yield,
            ),
            (PollPhase::Polling(task), PollEvent::Polled(PollResult::Completed { latency_ns })) => (
                PollPhase::Recording(task),
                PollAction::RecordReceived(task.stage, latency_ns),
            ),
            (PollPhase::Polling(task), PollEvent::Polled(PollResult::Pending)) => (
                PollPhase::Requeuing(task),
                PollAction::Requeue(task),
            ),
            (PollPhase::Polling(task), PollEvent::Polled(PollResult::Error(reason))) => (
                PollPhase::Recording(task),
                PollAction::RecordError(task.stage, reason),
            ),
            (PollPhase::Recording(task), PollEvent::Recorded) => (
                PollPhase::Settling(task),
                PollAction::Settle,
            ),
            (PollPhase::Settling(_), PollEvent::Settled) => (
                PollPhase::Checking,
                PollAction::CheckRunning,
            ),
            (PollPhase::Requeuing(_), PollEvent::Requeued) => (
                PollPhase::Sleeping,
                PollAction::Sleep(Span { secs: 0, nanos: 100_000 }),
            ),
            (PollPhase::Sleeping, PollEvent::Slept) => (
                PollPhase::Checking,
                PollAction::CheckRunning,
            ),
            (PollPhase::Yielding, PollEvent::Yielded) => (
                PollPhase::Checking,
                PollAction::CheckRunning,
            ),
            (PollPhase::Cleaning, PollEvent::CleanedUp) => (
                PollPhase::Finished,
                PollAction::Finish,
            ),
            _ => {
                return None;
            },
        };
        self.phase = phase;
        Some(action)
    }
}

/// What a poller has done so far.
pub struct PollTally {
    /// States created.
    pub created: nat,
    /// States cleaned up.
    pub cleaned: nat,
    /// Tasks taken.
    pub taken: nat,
    /// Tasks put back.
    pub requeued: nat,
    /// Tasks settled.
    pub settled: nat,
    /// Latencies recorded as received, in order.
    pub received: Seq<u64>,
    /// Reasons recorded as errors, in order.
    pub failed: Seq<Seq<char>>,
    /// What the polls said, in order.
    pub results: Seq<PollResult>,
}

impl PollTally {
    /// What a poller has done after one more event and the action it led to.
    pub open spec fn after(self, event: PollEvent, action: PollAction<Seq<char>>) -> Self {
        PollTally {
            created: if event is Initialized {
                self.created + 1
            } else {
                self.created
            },
            cleaned: if event is CleanedUp {
                self.cleaned + 1
            } else {
                self.cleaned
            },
            taken: if action is Poll {
                self.taken + 1
            } else {
                self.taken
            },
            requeued: if event is Requeued {
                self.requeued + 1
            } else {
                self.requeued
            },
            settled: if event is Settled {
                self.settled + 1
            } else {
                self.settled
            },
            received: match action {
                PollAction::RecordReceived(_, latency_ns) => self.received.push(latency_ns),
                _ => self.received,
            },
            failed: match action {
                PollAction::RecordError(_, reason) => self.failed.push(reason),
                _ => self.failed,
            },
            results: match event {
                PollEvent::Polled(result) => self.results.push(result),
                _ => self.results,
            },
        }
    }
}

/// The poller and what it has done after the events, where it accepts them all.
pub open spec fn poll_run(events: Seq<PollEvent>) -> Option<(PollPhase, PollTally)>
    decreases events.len(),
{
    if events.len() == 0 {
        Some(
            (
                PollPhase::Starting,
                PollTally {
                    created: 0,
                    cleaned: 0,
                    taken: 0,
                    requeued: 0,
                    settled: 0,
                    received: seq![],
                    failed: seq![],
                    results: seq![],
                },
            ),
        )
    } else {
        match poll_run(events.drop_last()) {
            Some((phase, t)) => match poll_next(phase, events.last()) {
                Some((phase2, action)) => Some((phase2, t.after(events.last(), action))),
                None => None,
            },
            None => None,
        }
    }
}

/// The latencies of the completions, in order.
pub open spec fn completions(results: Seq<PollResult>) -> Seq<u64>
    decreases results.len(),
{
    if results.len() == 0 {
        seq![]
    } else {
        match results.last() {
            PollResult::Completed { latency_ns } => completions(results.drop_last()).push(
                latency_ns,
            ),
            _ => completions(results.drop_last()),
        }
    }
}

/// The reasons of the polls that failed, in order.
pub open spec fn poll_failures(results: Seq<PollResult>) -> Seq<Seq<char>>
    decreases results.len(),
{
    if results.len() == 0 {
        seq![]
    } else {
        match results.last() {
            PollResult::Error(reason) => poll_failures(results.drop_last()).push(reason@),
            _ => poll_failures(results.drop_last()),
        }
    }
}

/// A poller records the completions and failures that its polls reported, in order. Every
/// task that it takes it puts back or settles; at most one is in its hands.
pub proof fn law_poller_accounts(events: Seq<PollEvent>)
    requires
        poll_run(events) is Some,
    ensures
        ({
            let (phase, t) = poll_run(events)->0;
            &&& t.received == completions(t.results)
            &&& t.failed == poll_failures(t.results)
            &&& t.received.len() + t.failed.len() == t.settled + if phase is Recording
                || phase is Settling {
                1int
            } else {
                0int
            }
            &&& t.taken == t.requeued + t.settled + if phase is Polling || phase is Recording
                || phase is Settling || phase is Requeuing {
                1int
            } else {
                0int
            }
        }),
    decreases events.len(),
{
    if events.len() > 0 {
        law_poller_accounts(events.drop_last());
        let (phase, t) = poll_run(events.drop_last())->0;
        let (phase2, t2) = poll_run(events)->0;
        if t2.results.len() > t.results.len() {
            assert(t2.results.drop_last() =~= t.results);
        }
    }
}

/// A poller creates its state once, before anything else, and cleans it up once, at the end.
pub proof fn law_poller_lifecycle(events: Seq<PollEvent>)
    requires
        poll_run(events) is Some,
    ensures
        ({
            let (phase, t) = poll_run(events)->0;
            &&& t.created == if phase is Starting {
                0nat
            } else {
                1nat
            }
            &&& t.cleaned == if phase is Finished {
                1nat
            } else {
                0nat
            }
            &&& phase is Starting ==> t.taken == 0
        }),
    decreases events.len(),
{
    if events.len() > 0 {
        law_poller_lifecycle(events.drop_last());
    }
}

/// Once a poller has seen that the run is over it takes no more tasks.
pub proof fn law_poller_stops(events: Seq<PollEvent>, more: Seq<PollEvent>)
    requires
        poll_run(events.push(PollEvent::Running(false))) is Some,
        poll_run(events.push(PollEvent::Running(false)) + more) is Some,
    ensures
        ({
            let (phase, t) = poll_run(events.push(PollEvent::Running(false)))->0;
            let (phase2, t2) = poll_run(events.push(PollEvent::Running(false)) + more)->0;
            &&& t2.taken == t.taken
            &&& t2.received == t.received
            &&& phase2 is Cleaning || phase2 is Finished
        }),
    decreases more.len(),
{
    let told = events.push(PollEvent::Running(false));
    if more.len() == 0 {
        assert(told + more =~= told);
        assert(told.drop_last() =~= events);
    } else {
        assert((told + more).drop_last() =~= told + more.drop_last());
        law_poller_stops(events, more.drop_last());
    }
}

// ---------------------------------------------------------------------------
// All workers of a run
// ---------------------------------------------------------------------------

/// A run: its workers, where its tasks are, and what was recorded in the measured stage.
pub struct TaskPool {
    /// The submitters.
    pub submitters: Seq<SubmitPhase>,
    /// The pollers.
    pub pollers: Seq<PollPhase>,
    /// Tasks that are pending, and how many are in pollers' hands.
    pub ledger: Ledger,
    /// Tasks that submissions returned.
    pub returned: Multiset<Task>,
    /// Tasks of which a poll reported the completion or a failure.
    pub ended: Multiset<Task>,
    /// Tasks that pollers settled.
    pub settled: Multiset<Task>,
    /// What the submissions of the measured stage returned, in order.
    pub submits: Seq<Option<u64>>,
    /// Submissions counted as sent.
    pub sent: nat,
    /// Reasons recorded as errors of submissions, in order.
    pub submit_failed: Seq<Seq<char>>,
    /// What the polls of tasks of the measured stage said, in order.
    pub polls: Seq<PollResult>,
    /// Latencies recorded as received, in order.
    pub received: Seq<u64>,
    /// Reasons recorded as errors of polls, in order.
    pub poll_failed: Seq<Seq<char>>,
}

/// What can happen in a run.
pub enum TaskStep {
    /// The action of a submitter is performed.
    Submitter(int, SubmitEvent),
    /// The action of a poller is performed.
    Poller(int, PollEvent),
}

/// The task in a submitter's hands.
pub open spec fn submit_hand(phase: SubmitPhase) -> Multiset<Task> {
    match phase {
        SubmitPhase::Pushing(task) => Multiset::singleton(task),
        _ => Multiset::empty(),
    }
}

/// The task in a poller's hands whose end is not reported.
pub open spec fn open_hand(phase: PollPhase) -> Multiset<Task> {
    match phase {
        PollPhase::Polling(task) => Multiset::singleton(task),
        PollPhase::Requeuing(task) => Multiset::singleton(task),
        _ => Multiset::empty(),
    }
}

/// The task in a poller's hands whose end is reported.
pub open spec fn ended_hand(phase: PollPhase) -> Multiset<Task> {
    match phase {
        PollPhase::Recording(task) => Multiset::singleton(task),
        PollPhase::Settling(task) => Multiset::singleton(task),
        _ => Multiset::empty(),
    }
}

/// How many tasks are in a poller's hands.
pub open spec fn holds(phase: PollPhase) -> nat {
    if phase is Polling || phase is Requeuing || phase is Recording || phase is Settling {
        1
    } else {
        0
    }
}

/// One for a task of the measured stage.
pub open spec fn one(task: Task) -> nat {
    if task.stage is Measured {
        1
    } else {
        0
    }
}

/// One for a submitter with a submission of the measured stage that has not ended.
pub open spec fn submitting(phase: SubmitPhase) -> nat {
    if phase == SubmitPhase::Counting(Stage::Measured) || phase == SubmitPhase::Submitting(
        Stage::Measured,
    ) {
        1
    } else {
        0
    }
}

/// One for a submitter with a task of the measured stage in its hands.
pub open spec fn submit_one(phase: SubmitPhase) -> nat {
    match phase {
        SubmitPhase::Pushing(task) => one(task),
        _ => 0,
    }
}

/// One for a poller with a task of the measured stage in its hands whose end is not reported.
pub open spec fn open_one(phase: PollPhase) -> nat {
    match phase {
        PollPhase::Polling(task) => one(task),
        PollPhase::Requeuing(task) => one(task),
        _ => 0,
    }
}

/// A run before anything happened.
pub open spec fn pool_start(submitters: nat, pollers: nat) -> TaskPool {
    TaskPool {
        submitters: Seq::new(submitters, |k: int| SubmitPhase::Starting),
        pollers: Seq::new(pollers, |k: int| PollPhase::Starting),
        ledger: Ledger { pending: seq![], held: 0 },
        returned: Multiset::empty(),
        ended: Multiset::empty(),
        settled: Multiset::empty(),
        submits: seq![],
        sent: 0,
        submit_failed: seq![],
        polls: seq![],
        received: seq![],
        poll_failed: seq![],
    }
}

/// Whether the step can happen: the worker exists and waits for the event, and what a poller
/// takes out is the latest pending task.
pub open spec fn can_happen(pool: TaskPool, step: TaskStep) -> bool {
    match step {
        TaskStep::Submitter(k, event) => {
            &&& 0 <= k < pool.submitters.len()
            &&& submit_next(pool.submitters[k], event) is Some
        },
        TaskStep::Poller(k, event) => {
            &&& 0 <= k < pool.pollers.len()
            &&& poll_next(pool.pollers[k], event) is Some
            &&& event matches PollEvent::Popped(popped) ==> popped == if pool.ledger.pending.len()
                == 0 {
                None
            } else {
                Some(pool.ledger.pending.last())
            }
        },
    }
}

/// The run after the action of a submitter is performed.
pub open spec fn after_submitter(pool: TaskPool, k: int, event: SubmitEvent) -> TaskPool {
    let phase = pool.submitters[k];
    let (phase2, action) = submit_next(phase, event)->0;
    TaskPool {
        submitters: pool.submitters.update(k, phase2),
        ledger: match phase {
            SubmitPhase::Pushing(task) => pool.ledger.pushed(task),
            _ => pool.ledger,
        },
        returned: match action {
            SubmitAction::Push(task) => pool.returned.insert(task),
            _ => pool.returned,
        },
        submits: match event {
            SubmitEvent::Submitted(submitted) => if phase == SubmitPhase::Submitting(
                Stage::Measured,
            ) {
                pool.submits.push(submitted)
            } else {
                pool.submits
            },
            _ => pool.submits,
        },
        sent: if action == SubmitAction::<Seq<char>>::RecordSent(Stage::Measured) {
            pool.sent + 1
        } else {
            pool.sent
        },
        submit_failed: match action {
            SubmitAction::RecordError(stage, reason) => if stage is Measured {
                pool.submit_failed.push(reason)
            } else {
                pool.submit_failed
            },
            _ => pool.submit_failed,
        },
        ..pool
    }
}

/// The run after the action of a poller is performed.
pub open spec fn after_poller(pool: TaskPool, k: int, event: PollEvent) -> TaskPool {
    let phase = pool.pollers[k];
    let (phase2, action) = poll_next(phase, event)->0;
    TaskPool {
        pollers: pool.pollers.update(k, phase2),
        ledger: match phase {
            PollPhase::Popping => pool.ledger.popped(),
            PollPhase::Requeuing(task) => pool.ledger.requeued(task),
            PollPhase::Settling(_) => pool.ledger.settled(),
            _ => pool.ledger,
        },
        ended: match phase2 {
            PollPhase::Recording(task) => pool.ended.insert(task),
            _ => pool.ended,
        },
        settled: match phase {
            PollPhase::Settling(task) => pool.settled.insert(task),
            _ => pool.settled,
        },
        polls: match (phase, event) {
            (PollPhase::Polling(task), PollEvent::Polled(result)) => if task.stage is Measured {
                pool.polls.push(result)
            } else {
                pool.polls
            },
            _ => pool.polls,
        },
        received: match action {
            PollAction::RecordReceived(stage, latency_ns) => if stage is Measured {
                pool.received.push(latency_ns)
            } else {
                pool.received
            },
            _ => pool.received,
        },
        poll_failed: match action {
            PollAction::RecordError(stage, reason) => if stage is Measured {
                pool.poll_failed.push(reason)
            } else {
                pool.poll_failed
            },
            _ => pool.poll_failed,
        },
        ..pool
    }
}

/// The run after one step.
pub open spec fn pool_after(pool: TaskPool, step: TaskStep) -> TaskPool {
    match step {
        TaskStep::Submitter(k, event) => after_submitter(pool, k, event),
        TaskStep::Poller(k, event) => after_poller(pool, k, event),
    }
}

/// A run after the steps, where they can all happen in this order.
pub open spec fn pool_run(submitters: nat, pollers: nat, steps: Seq<TaskStep>) -> Option<TaskPool>
    decreases steps.len(),
{
    if steps.len() == 0 {
        Some(pool_start(submitters, pollers))
    } else {
        match pool_run(submitters, pollers, steps.drop_last()) {
            Some(pool) => if can_happen(pool, steps.last()) {
                Some(pool_after(pool, steps.last()))
            } else {
                None
            },
            None => None,
        }
    }
}

/// Whether every task that a submission returned is in one place: in a submitter's hands,
/// pending, in a poller's hands, or settled; and whether the ledger counts the tasks in
/// pollers' hands.
pub open spec fn accounted(pool: TaskPool) -> bool {
    &&& pool.returned == gathered(pool.submitters, |p: SubmitPhase| submit_hand(p)).add(
        pool.ledger.pending.to_multiset(),
    ).add(gathered(pool.pollers, |p: PollPhase| open_hand(p))).add(pool.ended)
    &&& pool.ended == gathered(pool.pollers, |p: PollPhase| ended_hand(p)).add(pool.settled)
    &&& pool.ledger.held == total(pool.pollers, |p: PollPhase| holds(p))
}

/// Whether the figures of the measured stage account for its submissions and polls.
pub open spec fn figures_account(pool: TaskPool) -> bool {
    &&& pool.sent == pool.submits.len() + total(pool.submitters, |p: SubmitPhase| submitting(p))
    &&& pool.submit_failed == submit_failures(pool.submits)
    &&& pool.received == completions(pool.polls)
    &&& pool.poll_failed == poll_failures(pool.polls)
    &&& submitted_tasks(pool.submits, Stage::Measured).len() == total(
        pool.submitters,
        |p: SubmitPhase| submit_one(p),
    ) + total(pool.ledger.pending, |t: Task| one(t)) + total(
        pool.pollers,
        |p: PollPhase| open_one(p),
    ) + pool.received.len() + pool.poll_failed.len()
}

proof fn lemma_submitter_keeps_account(pool: TaskPool, k: int, event: SubmitEvent)
    requires
        accounted(pool),
        can_happen(pool, TaskStep::Submitter(k, event)),
    ensures
        accounted(after_submitter(pool, k, event)),
{
    broadcast use vstd::seq_lib::group_to_multiset_ensures;

    let next = after_submitter(pool, k, event);
    let phase = pool.submitters[k];
    let phase2 = (submit_next(phase, event)->0).0;
    let hand = |p: SubmitPhase| submit_hand(p);
    let open = |p: PollPhase| open_hand(p);
    lemma_gathered_update(pool.submitters, k, phase2, hand);
    if let SubmitPhase::Pushing(task) = phase {
        assert(next.ledger.pending.to_multiset() =~= pool.ledger.pending.to_multiset().insert(
            task,
        ));
    }
    let placed = gathered(next.submitters, hand).add(next.ledger.pending.to_multiset()).add(
        gathered(next.pollers, open),
    ).add(next.ended);
    assert forall|x: Task| next.returned.count(x) == placed.count(x) by {
        assert(gathered(next.submitters, hand).count(x) + hand(phase).count(x) == gathered(
            pool.submitters,
            hand,
        ).count(x) + hand(phase2).count(x));
    }
    assert(next.returned =~= placed);
}

proof fn lemma_poller_keeps_account(pool: TaskPool, k: int, event: PollEvent)
    requires
        accounted(pool),
        can_happen(pool, TaskStep::Poller(k, event)),
    ensures
        accounted(after_poller(pool, k, event)),
{
    broadcast use vstd::seq_lib::group_to_multiset_ensures;

    let next = after_poller(pool, k, event);
    let phase = pool.pollers[k];
    let phase2 = (poll_next(phase, event)->0).0;
    let hand = |p: SubmitPhase| submit_hand(p);
    let open = |p: PollPhase| open_hand(p);
    let done = |p: PollPhase| ended_hand(p);
    let count = |p: PollPhase| holds(p);
    lemma_gathered_update(pool.pollers, k, phase2, open);
    lemma_gathered_update(pool.pollers, k, phase2, done);
    lemma_total_update(pool.pollers, k, phase2, count);
    lemma_total_has(pool.pollers, k, count);
    let pending = pool.ledger.pending;
    match phase {
        PollPhase::Popping => {
            if pending.len() > 0 {
                let rest = pending.drop_last();
                assert(pending =~= rest.push(pending.last()));
                assert(pending.to_multiset() =~= rest.to_multiset().insert(pending.last()));
            }
        },
        PollPhase::Requeuing(task) => {
            assert(next.ledger.pending.to_multiset() =~= pending.to_multiset().insert(task));
        },
        _ => {},
    }
    let placed = gathered(next.submitters, hand).add(next.ledger.pending.to_multiset()).add(
        gathered(next.pollers, open),
    ).add(next.ended);
    assert forall|x: Task| next.returned.count(x) == placed.count(x) by {
        assert(gathered(next.pollers, open).count(x) + open(phase).count(x) == gathered(
            pool.pollers,
            open,
        ).count(x) + open(phase2).count(x));
    }
    assert(next.returned =~= placed);
    let closed = gathered(next.pollers, done).add(next.settled);
    assert forall|x: Task| next.ended.count(x) == closed.count(x) by {
        assert(gathered(next.pollers, done).count(x) + done(phase).count(x) == gathered(
            pool.pollers,
            done,
        ).count(x) + done(phase2).count(x));
    }
    assert(next.ended =~= closed);
}

proof fn lemma_submitter_keeps_figures(pool: TaskPool, k: int, event: SubmitEvent)
    requires
        figures_account(pool),
        can_happen(pool, TaskStep::Submitter(k, event)),
    ensures
        figures_account(after_submitter(pool, k, event)),
{
    let next = after_submitter(pool, k, event);
    let phase2 = (submit_next(pool.submitters[k], event)->0).0;
    lemma_total_update(pool.submitters, k, phase2, |p: SubmitPhase| submitting(p));
    lemma_total_update(pool.submitters, k, phase2, |p: SubmitPhase| submit_one(p));
    if next.submits.len() > pool.submits.len() {
        assert(next.submits.drop_last() =~= pool.submits);
    }
    if let SubmitPhase::Pushing(task) = pool.submitters[k] {
        assert(next.ledger.pending.drop_last() =~= pool.ledger.pending);
    }
}

proof fn lemma_poller_keeps_figures(pool: TaskPool, k: int, event: PollEvent)
    requires
        figures_account(pool),
        can_happen(pool, TaskStep::Poller(k, event)),
    ensures
        figures_account(after_poller(pool, k, event)),
{
    let next = after_poller(pool, k, event);
    let phase2 = (poll_next(pool.pollers[k], event)->0).0;
    lemma_total_update(pool.pollers, k, phase2, |p: PollPhase| open_one(p));
    if next.polls.len() > pool.polls.len() {
        assert(next.polls.drop_last() =~= pool.polls);
    }
    if let PollPhase::Requeuing(task) = pool.pollers[k] {
        assert(next.ledger.pending.drop_last() =~= pool.ledger.pending);
    }
}

/// However submitters and pollers interleave, no task is lost or doubled: whatever happens,
/// every task that a submission returned is in a submitter's hands, pending, in a poller's
/// hands, or settled; and the figures of the measured stage account for its submissions and
/// polls.
pub proof fn law_no_task_is_lost(submitters: nat, pollers: nat, steps: Seq<TaskStep>)
    requires
        pool_run(submitters, pollers, steps) is Some,
    ensures
        accounted(pool_run(submitters, pollers, steps)->0),
        figures_account(pool_run(submitters, pollers, steps)->0),
    decreases steps.len(),
{
    if steps.len() == 0 {
        broadcast use vstd::seq_lib::group_to_multiset_ensures;

        let pool = pool_start(submitters, pollers);
        lemma_gathered_none(pool.submitters, |p: SubmitPhase| submit_hand(p));
        lemma_gathered_none(pool.pollers, |p: PollPhase| open_hand(p));
        lemma_gathered_none(pool.pollers, |p: PollPhase| ended_hand(p));
        lemma_total_same(pool.pollers, 0, |p: PollPhase| holds(p));
        lemma_total_same(pool.pollers, 0, |p: PollPhase| open_one(p));
        lemma_total_same(pool.submitters, 0, |p: SubmitPhase| submitting(p));
        lemma_total_same(pool.submitters, 0, |p: SubmitPhase| submit_one(p));
        assert(pool.ledger.pending.to_multiset() =~= Multiset::<Task>::empty());
        let none = Multiset::<Task>::empty();
        assert(none.add(none) =~= none);
    } else {
        law_no_task_is_lost(submitters, pollers, steps.drop_last());
        let pool = pool_run(submitters, pollers, steps.drop_last())->0;
        match steps.last() {
            TaskStep::Submitter(k, event) => {
                lemma_submitter_keeps_account(pool, k, event);
                lemma_submitter_keeps_figures(pool, k, event);
            },
            TaskStep::Poller(k, event) => {
                lemma_poller_keeps_account(pool, k, event);
                lemma_poller_keeps_figures(pool, k, event);
            },
        }
    }
}

/// A task is polled only where a submission returned it and its end is not reported yet, so
/// that every submitted task ends at most once and is not polled after that.
pub proof fn law_polls_are_of_open_tasks(
    submitters: nat,
    pollers: nat,
    steps: Seq<TaskStep>,
    k: int,
    task: Task,
)
    requires
        pool_run(submitters, pollers, steps) is Some,
    ensures
        ({
            let pool = pool_run(submitters, pollers, steps)->0;
            &&& pool.ended.count(task) <= pool.returned.count(task)
            &&& 0 <= k < pool.pollers.len() && pool.pollers[k] == PollPhase::Polling(task)
                ==> pool.ended.count(task) < pool.returned.count(task)
        }),
{
    law_no_task_is_lost(submitters, pollers, steps);
    let pool = pool_run(submitters, pollers, steps)->0;
    if 0 <= k < pool.pollers.len() && pool.pollers[k] == PollPhase::Polling(task) {
        lemma_gathered_has(pool.pollers, k, |p: PollPhase| open_hand(p), task);
    }
}

/// Whether every submitter has ended.
pub open spec fn submitters_ended(pool: TaskPool) -> bool {
    forall|k: int| 0 <= k < pool.submitters.len() ==> #[trigger] pool.submitters[k] is Finished
}

/// With the submitters ended and nothing in flight, nothing moves any more.
proof fn lemma_drained_stays(
    submitters: nat,
    pollers: nat,
    steps: Seq<TaskStep>,
    more: Seq<TaskStep>,
)
    requires
        pool_run(submitters, pollers, steps) is Some,
        pool_run(submitters, pollers, steps + more) is Some,
        submitters_ended(pool_run(submitters, pollers, steps)->0),
        (pool_run(submitters, pollers, steps)->0).ledger.in_flight() == 0,
    ensures
        ({
            let pool = pool_run(submitters, pollers, steps)->0;
            let after = pool_run(submitters, pollers, steps + more)->0;
            &&& submitters_ended(after)
            &&& after.ledger.in_flight() == 0
            &&& after.returned == pool.returned
            &&& after.submits == pool.submits
        }),
    decreases more.len(),
{
    if more.len() == 0 {
        assert(steps + more =~= steps);
    } else {
        assert((steps + more).drop_last() =~= steps + more.drop_last());
        lemma_drained_stays(submitters, pollers, steps, more.drop_last());
        let pool = pool_run(submitters, pollers, steps + more.drop_last())->0;
        law_no_task_is_lost(submitters, pollers, steps + more.drop_last());
        match more.last() {
            TaskStep::Submitter(k, event) => {
                assert(pool.submitters[k] is Finished);
            },
            TaskStep::Poller(k, event) => {
                lemma_total_has(pool.pollers, k, |p: PollPhase| holds(p));
            },
        }
    }
}

/// Once the submitters have ended and the drain says that it is done, every task is settled,
/// and stays so to the end of the run: every submission of the measured stage that returned a
/// task is recorded as completed or as failed.
pub proof fn law_drained_run_settles_all(
    submitters: nat,
    pollers: nat,
    steps: Seq<TaskStep>,
    more: Seq<TaskStep>,
    past_deadline: bool,
)
    requires
        pool_run(submitters, pollers, steps) is Some,
        pool_run(submitters, pollers, steps + more) is Some,
        submitters_ended(pool_run(submitters, pollers, steps)->0),
        spec_drain_step(
            (pool_run(submitters, pollers, steps)->0).ledger.in_flight(),
            past_deadline,
        ) is Drained,
    ensures
        ({
            let after = pool_run(submitters, pollers, steps + more)->0;
            &&& after.settled == after.returned
            &&& submitted_tasks(after.submits, Stage::Measured).len() == after.received.len()
                + after.poll_failed.len()
        }),
{
    broadcast use vstd::seq_lib::group_to_multiset_ensures;

    lemma_drained_stays(submitters, pollers, steps, more);
    law_no_task_is_lost(submitters, pollers, steps + more);
    let after = pool_run(submitters, pollers, steps + more)->0;
    let count = |p: PollPhase| holds(p);
    assert forall|k: int| 0 <= k < after.pollers.len() implies holds(
        #[trigger] after.pollers[k],
    ) == 0 by {
        lemma_total_has(after.pollers, k, count);
    }
    lemma_gathered_none(after.submitters, |p: SubmitPhase| submit_hand(p));
    lemma_gathered_none(after.pollers, |p: PollPhase| open_hand(p));
    lemma_gathered_none(after.pollers, |p: PollPhase| ended_hand(p));
    lemma_total_same(after.submitters, 0, |p: SubmitPhase| submit_one(p));
    lemma_total_same(after.pollers, 0, |p: PollPhase| open_one(p));
    assert(after.ledger.pending =~= Seq::<Task>::empty());
    assert(after.ledger.pending.to_multiset() =~= Multiset::<Task>::empty());
    assert(after.settled =~= after.returned);
}

// ---------------------------------------------------------------------------
// Summaries of a run
// ---------------------------------------------------------------------------

/// Whether the results come from snapshots that count what the workers recorded in the
/// measured stage, and from the reasons that they recorded, by role.
pub open spec fn results_of(pool: TaskPool, r: AsyncTaskResults) -> bool {
    &&& exists|snap: StatsSnapshot|
        {
            &&& #[trigger] r.submitted.of_submits(snap, r.submitted.error_breakdown@)
            &&& snap.counts(pool.sent, 0, pool.submit_failed.len())
        }
    &&& exists|snap: StatsSnapshot|
        {
            &&& #[trigger] r.completed.of_receipts(snap, r.completed.error_breakdown@)
            &&& snap.counts(0, pool.received.len(), pool.poll_failed.len())
        }
    &&& breaks_down(r.submitted.error_breakdown@, pool.submit_failed)
    &&& breaks_down(r.completed.error_breakdown@, pool.poll_failed)
}

proof fn lemma_submits_split(submits: Seq<Option<u64>>)
    ensures
        submitted_tasks(submits, Stage::Measured).len() + submit_failures(submits).len()
            == submits.len(),
    decreases submits.len(),
{
    if submits.len() > 0 {
        lemma_submits_split(submits.drop_last());
    }
}

/// Every submission of the measured stage, of whichever submitter, is counted once in the
/// results: as a success where it returned a task, as an error where it did not. Nothing of
/// the ramp is counted.
pub proof fn law_submit_totals(
    submitters: nat,
    pollers: nat,
    steps: Seq<TaskStep>,
    r: AsyncTaskResults,
)
    requires
        pool_run(submitters, pollers, steps) is Some,
        submitters_ended(pool_run(submitters, pollers, steps)->0),
        results_of(pool_run(submitters, pollers, steps)->0, r),
    ensures
        ({
            let pool = pool_run(submitters, pollers, steps)->0;
            &&& r.submitted.total_ops == pool.submits.len()
            &&& r.submitted.successes == submitted_tasks(pool.submits, Stage::Measured).len()
            &&& r.submitted.errors == submit_failures(pool.submits).len()
            &&& r.submitted.measures_nothing()
        }),
{
    law_no_task_is_lost(submitters, pollers, steps);
    let pool = pool_run(submitters, pollers, steps)->0;
    lemma_total_same(pool.submitters, 0, |p: SubmitPhase| submitting(p));
    lemma_submits_split(pool.submits);
}

/// The completions and failures that the polls of tasks of the measured stage reported are
/// counted once each in the results, and together they are at most the tasks submitted.
pub proof fn law_poll_totals(
    submitters: nat,
    pollers: nat,
    steps: Seq<TaskStep>,
    r: AsyncTaskResults,
)
    requires
        pool_run(submitters, pollers, steps) is Some,
        submitters_ended(pool_run(submitters, pollers, steps)->0),
        results_of(pool_run(submitters, pollers, steps)->0, r),
    ensures
        ({
            let pool = pool_run(submitters, pollers, steps)->0;
            &&& r.completed.successes == completions(pool.polls).len()
            &&& r.completed.errors == poll_failures(pool.polls).len()
            &&& r.completed.successes + r.completed.errors <= r.submitted.successes
        }),
{
    law_submit_totals(submitters, pollers, steps, r);
    law_no_task_is_lost(submitters, pollers, steps);
}

/// Each summary breaks down the errors of its own role: the counts add up to its errors, and
/// each reason has the number of its occurrences.
pub proof fn law_each_role_breaks_down(
    submitters: nat,
    pollers: nat,
    steps: Seq<TaskStep>,
    r: AsyncTaskResults,
    reason: Seq<char>,
)
    requires
        pool_run(submitters, pollers, steps) is Some,
        results_of(pool_run(submitters, pollers, steps)->0, r),
    ensures
        ({
            let pool = pool_run(submitters, pollers, steps)->0;
            &&& counted_in(r.submitted.error_breakdown@) == r.submitted.errors
            &&& counted_in(r.completed.error_breakdown@) == r.completed.errors
            &&& count_of(tally(r.submitted.error_breakdown@), reason) == occurrences(
                submit_failures(pool.submits),
                reason,
            )
            &&& count_of(tally(r.completed.error_breakdown@), reason) == occurrences(
                poll_failures(pool.polls),
                reason,
            )
        }),
{
    law_no_task_is_lost(submitters, pollers, steps);
    let pool = pool_run(submitters, pollers, steps)->0;
    law_breakdown_adds_up(r.submitted.error_breakdown@, pool.submit_failed);
    law_breakdown_adds_up(r.completed.error_breakdown@, pool.poll_failed);
    law_counts_occurrences(pool.submit_failed, reason);
    law_counts_occurrences(pool.poll_failed, reason);
}

/// After a drain that is done, and with polls that never fail, every task submitted in the
/// measured stage is counted as completed.
pub proof fn law_drained_run_completes_all(
    submitters: nat,
    pollers: nat,
    steps: Seq<TaskStep>,
    more: Seq<TaskStep>,
    past_deadline: bool,
    r: AsyncTaskResults,
)
    requires
        pool_run(submitters, pollers, steps) is Some,
        pool_run(submitters, pollers, steps + more) is Some,
        submitters_ended(pool_run(submitters, pollers, steps)->0),
        spec_drain_step(
            (pool_run(submitters, pollers, steps)->0).ledger.in_flight(),
            past_deadline,
        ) is Drained,
        results_of(pool_run(submitters, pollers, steps + more)->0, r),
        poll_failures((pool_run(submitters, pollers, steps + more)->0).polls).len() == 0,
    ensures
        r.completed.successes == r.submitted.successes,
{
    lemma_drained_stays(submitters, pollers, steps, more);
    law_drained_run_settles_all(submitters, pollers, steps, more, past_deadline);
    law_no_task_is_lost(submitters, pollers, steps + more);
    law_submit_totals(submitters, pollers, steps + more, r);
}

// ---------------------------------------------------------------------------
// Settings
// ---------------------------------------------------------------------------

/// Settings of a submit-and-poll run.
///
/// `S` is the submitter, `Q` the poller, `P` the formatter of progress lines.
pub struct AsyncTaskBenchmark<S = (), Q = (), P = ()> {
    pub submit_workers: usize,
    pub poll_workers: usize,
    /// Target rate of all submitters together.
    pub rate: Float,
    /// Time over which the rate rises before the measured phase.
    pub ramp_up: Option<Span>,
    /// Rate at the start of the ramp.
    pub ramp_start_rate: Float,
    /// Burst allowance in seconds' worth of tokens.
    pub burst_factor: Float,
    pub show_ramp_progress: bool,
    pub duration: Span,
    /// How long pending tasks are waited for at the end.
    pub drain_timeout: Option<Span>,
    pub csv_path: Option<String>,
    pub show_progress: bool,
    /// The formatter; without one, [`progress_line`] formats.
    pub progress_fn: Option<P>,
    pub submitter: Option<S>,
    pub poller: Option<Q>,
}

impl<S, Q, P> AsyncTaskBenchmark<S, Q, P> {
    /// There is at least one worker in each role.
    pub open spec fn valid(self) -> bool {
        self.submit_workers >= 1 && self.poll_workers >= 1
    }

    /// Where the snapshots go.
    pub open spec fn snapshot_config(self) -> DualSnapshotConfig {
        DualSnapshotConfig {
            to_file: self.csv_path is Some,
            show_progress: self.show_progress,
            show_ramp_progress: self.show_ramp_progress,
        }
    }
}

impl AsyncTaskBenchmark<(), (), ()> {
    /// The settings where nothing is given: two submitters, two pollers,
    /// 500 tasks per second, ten seconds, up to thirty seconds of draining.
    pub fn new() -> (r: Self)
        ensures
            r.submit_workers == 2,
            r.poll_workers == 2,
            !r.rate.is_nan(),
            r.rate.units() == whole(500),
            r.ramp_up is None,
            r.ramp_start_rate == (Float { bits: 0 }),
            r.burst_factor == (Float { bits: ONE_TENTH }),
            r.show_ramp_progress,
            r.duration == (Span { secs: 10, nanos: 0 }),
            r.drain_timeout == Some(Span { secs: 30, nanos: 0 }),
            r.csv_path is None,
            r.show_progress,
            r.progress_fn is None,
            r.submitter is None,
            r.poller is None,
            r.valid(),
    {
        proof {
            vstd::arithmetic::power2::lemma2_to64();
            vstd::arithmetic::power2::lemma2_to64_rest();
            lemma_whole(FIVE_HUNDRED, 500, 44);
        }
        AsyncTaskBenchmark {
            submit_workers: 2,
            poll_workers: 2,
            rate: Float { bits: FIVE_HUNDRED },
            ramp_up: None,
            ramp_start_rate: Float { bits: 0 },
            burst_factor: Float { bits: ONE_TENTH },
            show_ramp_progress: true,
            duration: Span::from_secs(10),
            drain_timeout: Some(Span::from_secs(30)),
            csv_path: None,
            show_progress: true,
            progress_fn: None,
            submitter: None,
            poller: None,
        }
    }
}

impl Default for AsyncTaskBenchmark<(), (), ()> {
    fn default() -> (r: Self)
        ensures
            r.submit_workers == 2,
            r.poll_workers == 2,
            !r.rate.is_nan(),
            r.rate.units() == whole(500),
            r.ramp_up is None,
            r.ramp_start_rate == (Float { bits: 0 }),
            r.burst_factor == (Float { bits: ONE_TENTH }),
            r.show_ramp_progress,
            r.duration == (Span { secs: 10, nanos: 0 }),
            r.drain_timeout == Some(Span { secs: 30, nanos: 0 }),
            r.csv_path is None,
            r.show_progress,
            r.progress_fn is None,
            r.submitter is None,
            r.poller is None,
    {
        Self::new()
    }
}

impl<S, Q, P> AsyncTaskBenchmark<S, Q, P> {
    /// Sets the number of submitters, at least one.
    pub fn submit_workers(self, n: usize) -> (r: Self)
        ensures
            r == (AsyncTaskBenchmark {
                submit_workers: if n < 1 {
                    1
                } else {
                    n
                },
                ..self
            }),
    {
        let n: usize = if n < 1 {
            1
        } else {
            n
        };
        AsyncTaskBenchmark { submit_workers: n, ..self }
    }

    /// Sets the number of pollers, at least one.
    pub fn poll_workers(self, n: usize) -> (r: Self)
        ensures
            r == (AsyncTaskBenchmark {
                poll_workers: if n < 1 {
                    1
                } else {
                    n
                },
                ..self
            }),
    {
        let n: usize = if n < 1 {
            1
        } else {
            n
        };
        AsyncTaskBenchmark { poll_workers: n, ..self }
    }

    /// Sets the rate of all submitters together.
    pub fn rate(self, rate: Float) -> (r: Self)
        ensures
            r == (AsyncTaskBenchmark { rate, ..self }),
    {
        AsyncTaskBenchmark { rate, ..self }
    }

    /// Sets the time over which the rate rises before the measured phase.
    pub fn ramp_up(self, duration: Span) -> (r: Self)
        ensures
            r == (AsyncTaskBenchmark { ramp_up: Some(duration), ..self }),
    {
        AsyncTaskBenchmark { ramp_up: Some(duration), ..self }
    }

    /// Sets the rate at the start of the ramp; below zero counts as zero.
    pub fn ramp_start_rate(self, rate: Float) -> (r: Self)
        ensures
            r == (AsyncTaskBenchmark { ramp_start_rate: rate.spec_or_zero(), ..self }),
    {
        AsyncTaskBenchmark { ramp_start_rate: rate.or_zero(), ..self }
    }

    /// Sets the burst allowance in seconds' worth of tokens, from one thousandth to one thousand.
    pub fn burst_factor(self, factor: Float) -> (r: Self)
        ensures
            r == (AsyncTaskBenchmark { burst_factor: spec_clamp_burst(factor), ..self }),
    {
        AsyncTaskBenchmark { burst_factor: clamp_burst(factor), ..self }
    }

    /// Chooses whether progress is shown during the ramp.
    pub fn show_ramp_progress(self, show: bool) -> (r: Self)
        ensures
            r == (AsyncTaskBenchmark { show_ramp_progress: show, ..self }),
    {
        AsyncTaskBenchmark { show_ramp_progress: show, ..self }
    }

    /// Sets the duration of the measured phase.
    pub fn duration(self, duration: Span) -> (r: Self)
        ensures
            r == (AsyncTaskBenchmark { duration, ..self }),
    {
        AsyncTaskBenchmark { duration, ..self }
    }

    /// Sets the duration of the measured phase in seconds.
    pub fn duration_secs(self, secs: u64) -> (r: Self)
        ensures
            r == (AsyncTaskBenchmark { duration: Span { secs, nanos: 0 }, ..self }),
    {
        AsyncTaskBenchmark { duration: Span::from_secs(secs), ..self }
    }

    /// Sets how long pending tasks are waited for at the end; `None` disables it.
    pub fn drain_timeout(self, timeout: Option<Span>) -> (r: Self)
        ensures
            r == (AsyncTaskBenchmark { drain_timeout: timeout, ..self }),
    {
        AsyncTaskBenchmark { drain_timeout: timeout, ..self }
    }

    /// Sets how many seconds pending tasks are waited for at the end.
    pub fn drain_timeout_secs(self, secs: u64) -> (r: Self)
        ensures
            r == (AsyncTaskBenchmark { drain_timeout: Some(Span { secs, nanos: 0 }), ..self }),
    {
        AsyncTaskBenchmark { drain_timeout: Some(Span::from_secs(secs)), ..self }
    }

    /// Sets the output file.
    pub fn csv(self, path: String) -> (r: Self)
        ensures
            r == (AsyncTaskBenchmark { csv_path: Some(path), ..self }),
    {
        AsyncTaskBenchmark { csv_path: Some(path), ..self }
    }

    /// Chooses whether progress is shown.
    pub fn progress(self, show: bool) -> (r: Self)
        ensures
            r == (AsyncTaskBenchmark { show_progress: show, ..self }),
    {
        AsyncTaskBenchmark { show_progress: show, ..self }
    }

    /// Sets the formatter of progress lines.
    pub fn on_progress<P2>(self, f: P2) -> (r: AsyncTaskBenchmark<S, Q, P2>)
        ensures
            r.progress_fn == Some(f),
            r.submit_workers == self.submit_workers,
            r.poll_workers == self.poll_workers,
            r.rate == self.rate,
            r.ramp_up == self.ramp_up,
            r.ramp_start_rate == self.ramp_start_rate,
            r.burst_factor == self.burst_factor,
            r.show_ramp_progress == self.show_ramp_progress,
            r.duration == self.duration,
            r.drain_timeout == self.drain_timeout,
            r.csv_path == self.csv_path,
            r.show_progress == self.show_progress,
            r.submitter == self.submitter,
            r.poller == self.poller,
    {
        AsyncTaskBenchmark {
            submit_workers: self.submit_workers,
            poll_workers: self.poll_workers,
            rate: self.rate,
            ramp_up: self.ramp_up,
            ramp_start_rate: self.ramp_start_rate,
            burst_factor: self.burst_factor,
            show_ramp_progress: self.show_ramp_progress,
            duration: self.duration,
            drain_timeout: self.drain_timeout,
            csv_path: self.csv_path,
            show_progress: self.show_progress,
            progress_fn: Some(f),
            submitter: self.submitter,
            poller: self.poller,
        }
    }

    /// Sets the submitter.
    pub fn submitter<S2>(self, submitter: S2) -> (r: AsyncTaskBenchmark<S2, Q, P>)
        ensures
            r.submitter == Some(submitter),
            r.submit_workers == self.submit_workers,
            r.poll_workers == self.poll_workers,
            r.rate == self.rate,
            r.ramp_up == self.ramp_up,
            r.ramp_start_rate == self.ramp_start_rate,
            r.burst_factor == self.burst_factor,
            r.show_ramp_progress == self.show_ramp_progress,
            r.duration == self.duration,
            r.drain_timeout == self.drain_timeout,
            r.csv_path == self.csv_path,
            r.show_progress == self.show_progress,
            r.progress_fn == self.progress_fn,
            r.poller == self.poller,
    {
        AsyncTaskBenchmark {
            submit_workers: self.submit_workers,
            poll_workers: self.poll_workers,
            rate: self.rate,
            ramp_up: self.ramp_up,
            ramp_start_rate: self.ramp_start_rate,
            burst_factor: self.burst_factor,
            show_ramp_progress: self.show_ramp_progress,
            duration: self.duration,
            drain_timeout: self.drain_timeout,
            csv_path: self.csv_path,
            show_progress: self.show_progress,
            progress_fn: self.progress_fn,
            submitter: Some(submitter),
            poller: self.poller,
        }
    }

    /// Sets the poller.
    pub fn poller<Q2>(self, poller: Q2) -> (r: AsyncTaskBenchmark<S, Q2, P>)
        ensures
            r.poller == Some(poller),
            r.submit_workers == self.submit_workers,
            r.poll_workers == self.poll_workers,
            r.rate == self.rate,
            r.ramp_up == self.ramp_up,
            r.ramp_start_rate == self.ramp_start_rate,
            r.burst_factor == self.burst_factor,
            r.show_ramp_progress == self.show_ramp_progress,
            r.duration == self.duration,
            r.drain_timeout == self.drain_timeout,
            r.csv_path == self.csv_path,
            r.show_progress == self.show_progress,
            r.progress_fn == self.progress_fn,
            r.submitter == self.submitter,
    {
        AsyncTaskBenchmark {
            submit_workers: self.submit_workers,
            poll_workers: self.poll_workers,
            rate: self.rate,
            ramp_up: self.ramp_up,
            ramp_start_rate: self.ramp_start_rate,
            burst_factor: self.burst_factor,
            show_ramp_progress: self.show_ramp_progress,
            duration: self.duration,
            drain_timeout: self.drain_timeout,
            csv_path: self.csv_path,
            show_progress: self.show_progress,
            progress_fn: self.progress_fn,
            submitter: self.submitter,
            poller: Some(poller),
        }
    }

    // -----------------------------------------------------------------------
    // Run
    // -----------------------------------------------------------------------

    /// The rate at which submitters start: that of the ramp where there is one.
    pub fn start_rate(&self) -> (r: Float)
        ensures
            r == (if self.ramp_up is Some {
                self.ramp_start_rate
            } else {
                self.rate
            }),
    {
        if self.ramp_up.is_some() {
            self.ramp_start_rate
        } else {
            self.rate
        }
    }

    /// Where the snapshots go.
    pub fn snapshots(&self) -> (r: DualSnapshotConfig)
        ensures
            r == self.snapshot_config(),
    {
        DualSnapshotConfig {
            to_file: self.csv_path.is_some(),
            show_progress: self.show_progress,
            show_ramp_progress: self.show_ramp_progress,
        }
    }

    /// The steps of a run. Submitters stop first; pollers go on while pending tasks drain.
    pub open spec fn steps(self) -> Seq<RunStep> {
        seq![
            RunStep::Spawn(Role::Submitters, self.submit_workers),
            RunStep::Spawn(Role::Pollers, self.poll_workers),
        ] + (if self.snapshot_config().active() {
            seq![RunStep::SpawnSnapshots]
        } else {
            seq![]
        }) + (match self.ramp_up {
            Some(over) => seq![
                RunStep::Ramp { from: self.ramp_start_rate, to: self.rate, over },
                RunStep::EndRamp,
            ],
            None => seq![],
        }) + seq![
            RunStep::Sleep(self.duration),
            RunStep::Stop(Signal::Submitting),
            RunStep::Join(Role::Submitters),
        ] + (match self.drain_timeout {
            Some(timeout) => seq![RunStep::Drain(timeout)],
            None => seq![],
        }) + seq![RunStep::Stop(Signal::Running), RunStep::Join(Role::Pollers)] + (
        if self.snapshot_config().active() {
            seq![RunStep::JoinSnapshots]
        } else {
            seq![]
        })
    }

    /// The steps of a run.
    pub fn run_plan(&self) -> (r: Vec<RunStep>)
        ensures
            r@ == self.steps(),
    {
        let active: bool = self.snapshots().is_active();
        let mut plan: Vec<RunStep> = Vec::new();
        plan.push(RunStep::Spawn(Role::Submitters, self.submit_workers));
        plan.push(RunStep::Spawn(Role::Pollers, self.poll_workers));
        if active {
            plan.push(RunStep::SpawnSnapshots);
        }
        match self.ramp_up {
            Some(over) => {
                plan.push(RunStep::Ramp { from: self.ramp_start_rate, to: self.rate, over });
                plan.push(RunStep::EndRamp);
            },
            None => {},
        }
        plan.push(RunStep::Sleep(self.duration));
        plan.push(RunStep::Stop(Signal::Submitting));
        plan.push(RunStep::Join(Role::Submitters));
        match self.drain_timeout {
            Some(timeout) => {
                plan.push(RunStep::Drain(timeout));
            },
            None => {},
        }
        plan.push(RunStep::Stop(Signal::Running));
        plan.push(RunStep::Join(Role::Pollers));
        if active {
            plan.push(RunStep::JoinSnapshots);
        }
        assert(plan@ =~= self.steps());
        plan
    }

    /// The results of a run, from the last snapshots of submitters and pollers in the
    /// measured stage and the errors of each by reason.
    pub fn results(
        self,
        submitted: &StatsSnapshot,
        completed: &StatsSnapshot,
        submit_errors: Vec<ErrorCount>,
        poll_errors: Vec<ErrorCount>,
    ) -> (r: AsyncTaskResults)
        ensures
            r.submitted.of_submits(*submitted, submit_errors@),
            r.completed.of_receipts(*completed, poll_errors@),
            r.submit_workers == self.submit_workers,
            r.poll_workers == self.poll_workers,
            r.target_rate == self.rate,
            r.duration == self.duration,
            r.csv_path == self.csv_path,
    {
        AsyncTaskResults {
            submitted: BenchmarkSummary::from_snapshot_send_only(submitted, submit_errors),
            completed: BenchmarkSummary::from_snapshot_recv_only(completed, poll_errors),
            submit_workers: self.submit_workers,
            poll_workers: self.poll_workers,
            target_rate: self.rate,
            duration: self.duration,
            csv_path: self.csv_path,
        }
    }
}

/// A run starts all its workers before it measures, and where it ramps ends the ramp right
/// before that; it stops the submitters once the measured time is over, waits for them and for
/// the pending tasks to drain, and only then stops the pollers and waits for them.
pub proof fn law_async_task_run_in_order<S, Q, P>(b: AsyncTaskBenchmark<S, Q, P>)
    ensures
        b.steps()[0] == RunStep::Spawn(Role::Submitters, b.submit_workers),
        b.steps()[1] == RunStep::Spawn(Role::Pollers, b.poll_workers),
        exists|sleep: int, stop: int|
            1 < sleep && sleep + 2 < stop < b.steps().len() - 1
            && #[trigger] b.steps()[sleep] == RunStep::Sleep(b.duration)
            && b.steps()[sleep + 1] == RunStep::Stop(Signal::Submitting)
            && b.steps()[sleep + 2] == RunStep::Join(Role::Submitters)
            && (b.drain_timeout matches Some(timeout) ==> b.steps()[stop - 1] == RunStep::Drain(
                timeout,
            ) && sleep + 2 < stop - 1)
            && #[trigger] b.steps()[stop] == RunStep::Stop(Signal::Running)
            && b.steps()[stop + 1] == RunStep::Join(Role::Pollers)
            && (b.ramp_up matches Some(over) ==> b.steps()[sleep - 2] == (RunStep::Ramp {
                from: b.ramp_start_rate,
                to: b.rate,
                over,
            }) && b.steps()[sleep - 1] == RunStep::EndRamp),
{
    let snapshots: int = if b.snapshot_config().active() {
        1
    } else {
        0
    };
    let ramp: int = if b.ramp_up is Some {
        2
    } else {
        0
    };
    let drain: int = if b.drain_timeout is Some {
        1
    } else {
        0
    };
    let sleep = 2 + snapshots + ramp;
    let stop = sleep + 3 + drain;
    assert(b.steps()[sleep] == RunStep::Sleep(b.duration));
    assert(b.steps()[stop] == RunStep::Stop(Signal::Running));
}

// ---------------------------------------------------------------------------
// Draining
// ---------------------------------------------------------------------------

/// What to do about tasks in flight at the end of a run.
#[derive(Clone, Copy, Debug, PartialEq, Eq, Structural)]
pub enum DrainStep {
    /// None is in flight.
    Drained,
    /// Time is up; this many are in flight.
    TimedOut { remaining: usize },
    /// Look again after a while.
    Wait(Span),
}

/// What to do when `remaining` tasks are in flight and the deadline has or has not passed:
/// while time is left, look again after 50 milliseconds.
pub open spec fn spec_drain_step(remaining: nat, past_deadline: bool) -> DrainStep {
    if remaining == 0 {
        DrainStep::Drained
    } else if past_deadline {
        DrainStep::TimedOut { remaining: remaining as usize }
    } else {
        DrainStep::Wait(Span { secs: 0, nanos: 50_000_000 })
    }
}

/// What to do when `remaining` tasks are in flight, pending or in pollers' hands, and the
/// deadline has or has not passed.
pub fn drain_step(remaining: usize, past_deadline: bool) -> (r: DrainStep)
    ensures
        r == spec_drain_step(remaining as nat, past_deadline),
{
    if remaining == 0 {
        DrainStep::Drained
    } else if past_deadline {
        DrainStep::TimedOut { remaining }
    } else {
        DrainStep::Wait(Span { secs: 0, nanos: 50_000_000 })
    }
}

// ---------------------------------------------------------------------------
// Snapshots
// ---------------------------------------------------------------------------

/// The fractional figures of a row as text.
pub struct RowText {
    pub throughput: String,
    pub p50_ms: String,
    pub p95_ms: String,
    pub p99_ms: String,
}

/// The names of the columns.
pub open spec fn header_fields() -> Seq<Seq<char>> {
    seq![
        "timestamp"@,
        "submitted"@,
        "completed"@,
        "in_flight"@,
        "throughput"@,
        "p50_ms"@,
        "p95_ms"@,
        "p99_ms"@,
    ]
}

/// The header line of the table.
pub fn csv_header() -> (r: String)
    ensures
        r@ == comma_separated(header_fields()),
{
    let mut fields: Vec<String> = Vec::new();
    fields.push("timestamp".to_owned());
    fields.push("submitted".to_owned());
    fields.push("completed".to_owned());
    fields.push("in_flight".to_owned());
    fields.push("throughput".to_owned());
    fields.push("p50_ms".to_owned());
    fields.push("p95_ms".to_owned());
    fields.push("p99_ms".to_owned());
    assert(texts(fields@) =~= header_fields());
    comma_line(&fields)
}

/// The fields of a row, from the snapshots of submitters and pollers.
pub open spec fn row_fields(
    submitted: StatsSnapshot,
    completed: StatsSnapshot,
    text: RowText,
) -> Seq<Seq<char>> {
    seq![
        decimal(submitted.timestamp as nat),
        decimal(submitted.sent_count as nat),
        decimal(completed.received_count as nat),
        decimal(monus(submitted.sent_count, completed.received_count) as nat),
        text.throughput@,
        text.p50_ms@,
        text.p95_ms@,
        text.p99_ms@,
    ]
}

/// The row of the table for a pair of snapshots.
pub fn csv_row(submitted: &StatsSnapshot, completed: &StatsSnapshot, text: &RowText) -> (r: String)
    ensures
        r@ == comma_separated(row_fields(*submitted, *completed, *text)),
{
    let in_flight: u64 = submitted.sent_count.saturating_sub(completed.received_count);
    let mut fields: Vec<String> = Vec::new();
    fields.push(decimal_text(submitted.timestamp));
    fields.push(decimal_text(submitted.sent_count));
    fields.push(decimal_text(completed.received_count));
    fields.push(decimal_text(in_flight));
    fields.push(text.throughput.clone());
    fields.push(text.p50_ms.clone());
    fields.push(text.p95_ms.clone());
    fields.push(text.p99_ms.clone());
    assert(texts(fields@) =~= row_fields(*submitted, *completed, *text));
    comma_line(&fields)
}

/// Header and rows have the same eight columns, provided the fractional figures are
/// written without commas.
pub proof fn law_rows_match_header(
    submitted: StatsSnapshot,
    completed: StatsSnapshot,
    text: RowText,
)
    requires
        commas(text.throughput@) == 0,
        commas(text.p50_ms@) == 0,
        commas(text.p95_ms@) == 0,
        commas(text.p99_ms@) == 0,
    ensures
        header_fields().len() == 8,
        row_fields(submitted, completed, text).len() == header_fields().len(),
        commas(comma_separated(header_fields())) == 7,
        commas(comma_separated(row_fields(submitted, completed, text))) == 7,
{
    let names = header_fields();
    assert forall|i: int| 0 <= i < names.len() implies commas(#[trigger] names[i]) == 0 by {
        reveal_strlit("timestamp");
        reveal_strlit("submitted");
        reveal_strlit("completed");
        reveal_strlit("in_flight");
        reveal_strlit("throughput");
        reveal_strlit("p50_ms");
        reveal_strlit("p95_ms");
        reveal_strlit("p99_ms");
        lemma_no_comma(names[i]);
    }
    law_columns(names);
    let fields = row_fields(submitted, completed, text);
    assert forall|i: int| 0 <= i < fields.len() implies commas(#[trigger] fields[i]) == 0 by {
        lemma_decimal_has_no_comma(submitted.timestamp as nat);
        lemma_decimal_has_no_comma(submitted.sent_count as nat);
        lemma_decimal_has_no_comma(completed.received_count as nat);
        lemma_decimal_has_no_comma(monus(submitted.sent_count, completed.received_count) as nat);
    }
    law_columns(fields);
}

/// The default progress line.
pub fn progress_line(submitted: &StatsSnapshot, completed: &StatsSnapshot, p50_ms: &str) -> (r:
    String)
    ensures
        r@ == joined(
            seq![
                "  "@,
                decimal(submitted.sent_count as nat),
                " submitted | "@,
                decimal(completed.received_count as nat),
                " completed | "@,
                decimal(monus(submitted.sent_count, completed.received_count) as nat),
                " in-flight | p50="@,
                p50_ms@,
                "ms"@,
            ],
        ),
{
    let sent: String = decimal_text(submitted.sent_count);
    let received: String = decimal_text(completed.received_count);
    let in_flight: String = decimal_text(
        submitted.sent_count.saturating_sub(completed.received_count),
    );
    let parts: Vec<&str> = vec![
        "  ",
        sent.as_str(),
        " submitted | ",
        received.as_str(),
        " completed | ",
        in_flight.as_str(),
        " in-flight | p50=",
        p50_ms,
        "ms",
    ];
    assert(slices(parts@) =~= seq![
        "  "@,
        decimal(submitted.sent_count as nat),
        " submitted | "@,
        decimal(completed.received_count as nat),
        " completed | "@,
        decimal(monus(submitted.sent_count, completed.received_count) as nat),
        " in-flight | p50="@,
        p50_ms@,
        "ms"@,
    ]);
    joined_text(parts)
}

// ---------------------------------------------------------------------------
// What the list of tasks does
// ---------------------------------------------------------------------------

/// A new list is empty. The latest task comes out first, and one that comes out is in a poller's
/// hands until it is put back or settled; tasks in flight are those in the list and in hands.
pub proof fn law_list_of_tasks(new: PendingTasks, p: PendingTasks, n: usize)
    ensures
        call_ensures(PendingTasks::new, (), new) ==> new@.pending.len() == 0 && new@.held == 0,
        call_ensures(PendingTasks::held, (&p,), n) ==> n == p@.held,
        call_ensures(PendingTasks::in_flight, (&p,), n) ==> n == p@.pending.len() + p@.held,
{
}

/// A task that is put in stands behind all others, which stay as they are.
pub proof fn law_push_puts_behind(p: &mut PendingTasks, task: Task)
    requires
        old(p)@.pending.len() + old(p)@.held < usize::MAX,
        call_ensures(PendingTasks::push, (p, task), ()),
    ensures
        final(p)@.pending == old(p)@.pending.push(task),
        final(p)@.held == old(p)@.held,
{
}

/// The latest task comes out, and no other; an empty list gives none and stays as it is.
pub proof fn law_pop_takes_latest(p: &mut PendingTasks, r: Option<Task>)
    requires
        call_ensures(PendingTasks::pop, (p,), r),
    ensures
        r is Some <==> old(p)@.pending.len() > 0,
        r matches Some(task) ==> final(p)@.pending.push(task) == old(p)@.pending && final(p)@.held
            == old(p)@.held + 1,
        r is None ==> final(p)@.pending == old(p)@.pending && final(p)@.held == old(p)@.held,
{
    if old(p)@.pending.len() > 0 {
        assert(old(p)@.pending =~= old(p)@.pending.drop_last().push(old(p)@.pending.last()));
    }
}

/// A task that is put back stands behind all others and is in no hands any more.
pub proof fn law_requeue_puts_back(p: &mut PendingTasks, task: Task)
    requires
        old(p)@.held > 0,
        call_ensures(PendingTasks::requeue, (p, task), ()),
    ensures
        final(p)@.pending == old(p)@.pending.push(task),
        final(p)@.held + 1 == old(p)@.held,
{
}

/// A task that is settled is in no hands any more; the list stays as it is.
pub proof fn law_settle_lets_go(p: &mut PendingTasks)
    requires
        old(p)@.held > 0,
        call_ensures(PendingTasks::settle, (p,), ()),
    ensures
        final(p)@.pending == old(p)@.pending,
        final(p)@.held + 1 == old(p)@.held,
{
}

/// The same of the ledger that contracts speak of.
pub proof fn law_ledger(l: Ledger, task: Task)
    ensures
        l.in_flight() == l.pending.len() + l.held,
        l.pushed(task).pending == l.pending.push(task) && l.pushed(task).held == l.held,
        l.pending.len() == 0 ==> l.popped() == l,
        l.pending.len() > 0 ==> l.popped().pending.push(l.pending.last()) == l.pending
            && l.popped().held == l.held + 1,
        l.held > 0 ==> l.requeued(task).pending == l.pending.push(task) && l.requeued(task).held + 1
            == l.held,
        l.held > 0 ==> l.settled().pending == l.pending && l.settled().held + 1 == l.held,
{
    if l.pending.len() > 0 {
        assert(l.pending =~= l.pending.drop_last().push(l.pending.last()));
    }
}

/// A drain is done just where nothing is in flight. While something is, it looks again every 50
/// milliseconds until its time is up, and then says how much is left.
pub proof fn law_drain_steps(remaining: usize, past_deadline: bool, r: DrainStep)
    requires
        call_ensures(drain_step, (remaining, past_deadline), r),
    ensures
        remaining == 0 <==> r is Drained,
        remaining > 0 && past_deadline ==> r == (DrainStep::TimedOut { remaining }),
        remaining > 0 && !past_deadline ==> r == DrainStep::Wait(
            Span { secs: 0, nanos: 50_000_000 },
        ),
{
}

// ---------------------------------------------------------------------------
// What a submitter asks for
// ---------------------------------------------------------------------------

/// The action that a submitter asks for after the events.
pub open spec fn submit_asks(events: Seq<SubmitEvent>) -> SubmitAction<Seq<char>> {
    if events.len() == 0 {
        SubmitAction::Init
    } else {
        (submit_next((submit_run(events.drop_last(), Stage::Measured)->0).0, events.last())->0).1
    }
}

/// Whether an event answers an action.
pub open spec fn submit_answers(action: SubmitAction<Seq<char>>, event: SubmitEvent) -> bool {
    match action {
        SubmitAction::Init => event is Initialized,
        SubmitAction::CheckRunning => event is Running,
        SubmitAction::Acquire => event is Acquired,
        SubmitAction::RecordSent(_) => event is Recorded,
        SubmitAction::Submit => event is Submitted,
        SubmitAction::Push(_) => event is Pushed,
        SubmitAction::RecordError(_, _) => event is Recorded,
        SubmitAction::Cleanup => event is CleanedUp,
        SubmitAction::Finish => false,
    }
}

/// A new submitter asks for its state. A step follows the transition for its event, and where
/// there is none gives nothing and leaves the submitter as it is.
pub proof fn law_submit_step(
    w: &mut SubmitWorker,
    event: SubmitEvent,
    r: Option<SubmitAction<String>>,
    new: (SubmitWorker, SubmitAction<String>),
)
    requires
        call_ensures(SubmitWorker::step, (w, event), r),
        call_ensures(SubmitWorker::start, (), new),
    ensures
        r is Some <==> submit_next(old(w)@, event) is Some,
        r is Some ==> final(w)@ == (submit_next(old(w)@, event)->0).0,
        r is Some ==> r->0@ == (submit_next(old(w)@, event)->0).1,
        r is None ==> final(w)@ == old(w)@,
        new.0@ is Starting,
        new.1 is Init,
{
}

/// Actions are seen as they are.
pub proof fn law_submit_actions_are_seen(a: SubmitAction<String>)
    ensures
        a is Init <==> a@ is Init,
        a is CheckRunning <==> a@ is CheckRunning,
        a is Acquire <==> a@ is Acquire,
        a is RecordSent <==> a@ is RecordSent,
        a is Submit <==> a@ is Submit,
        a is Push <==> a@ is Push,
        a is RecordError <==> a@ is RecordError,
        a is Cleanup <==> a@ is Cleanup,
        a is Finish <==> a@ is Finish,
        a matches SubmitAction::RecordSent(stage) ==> a@ == SubmitAction::<Seq<char>>::RecordSent(
            stage,
        ),
        a matches SubmitAction::Push(task) ==> a@ == SubmitAction::<Seq<char>>::Push(task),
        a matches SubmitAction::RecordError(stage, reason) ==> a@ == SubmitAction::<
            Seq<char>,
        >::RecordError(stage, reason@),
{
}

/// A submitter goes on just where it gets an answer to what it asked for.
pub proof fn law_submit_takes_answers(events: Seq<SubmitEvent>, event: SubmitEvent)
    requires
        submit_run(events, Stage::Measured) is Some,
    ensures
        submit_run(events.push(event), Stage::Measured) is Some <==> submit_answers(
            submit_asks(events),
            event,
        ),
{
    assert(events.push(event).drop_last() =~= events);
}

/// What a submitter asks for next. It reads the flag before every permit, counts and submits once
/// for every permit, and makes the task pending that came back, or records the failure, for the
/// stage of that permit; once the flag is cleared it cleans up.
pub proof fn law_submit_asks_next(events: Seq<SubmitEvent>, event: SubmitEvent)
    requires
        submit_run(events.push(event), Stage::Measured) is Some,
    ensures
        ({
            let asked = submit_asks(events);
            let next = submit_asks(events.push(event));
            &&& event is Initialized ==> next is CheckRunning
            &&& event == SubmitEvent::Running(true) ==> next is Acquire
            &&& event == SubmitEvent::Running(false) ==> next is Cleanup
            &&& event matches SubmitEvent::Acquired(stage) ==> next == SubmitAction::<
                Seq<char>,
            >::RecordSent(stage)
            &&& asked is RecordSent ==> next is Submit
            &&& event matches SubmitEvent::Submitted(submitted) ==> {
                &&& events.len() >= 2
                &&& events[events.len() - 2] matches SubmitEvent::Acquired(stage)
                    && match submitted {
                    Some(id) => next == SubmitAction::<Seq<char>>::Push(Task { id, stage }),
                    None => next == SubmitAction::<Seq<char>>::RecordError(
                        stage,
                        "submit failed"@,
                    ),
                }
            }
            &&& event is Pushed ==> next is CheckRunning
            &&& asked is RecordError ==> next is CheckRunning
            &&& event is CleanedUp ==> next is Finish
        }),
{
    assert(events.push(event).drop_last() =~= events);
    if event is Submitted {
        let one = events.drop_last();
        let two = one.drop_last();
        assert(submit_run(events, Stage::Measured) is Some);
        assert(submit_run(one, Stage::Measured) is Some);
        assert(submit_run(two, Stage::Measured) is Some);
        assert(one.last() == events[events.len() - 2]);
    }
}

// ---------------------------------------------------------------------------
// What a poller asks for
// ---------------------------------------------------------------------------

/// The action that a poller asks for after the events.
pub open spec fn poll_asks(events: Seq<PollEvent>) -> PollAction<Seq<char>> {
    if events.len() == 0 {
        PollAction::Init
    } else {
        (poll_next((poll_run(events.drop_last())->0).0, events.last())->0).1
    }
}

/// Whether an event answers an action.
pub open spec fn poll_answers(action: PollAction<Seq<char>>, event: PollEvent) -> bool {
    match action {
        PollAction::Init => event is Initialized,
        PollAction::CheckRunning => event is Running,
        PollAction::Pop => event is Popped,
        PollAction::Poll(_) => event is Polled,
        PollAction::RecordReceived(_, _) => event is Recorded,
        PollAction::RecordError(_, _) => event is Recorded,
        PollAction::Settle => event is Settled,
        PollAction::Requeue(_) => event is Requeued,
        PollAction::Sleep(_) => event is Slept,
        PollAction::Yield => event is Yielded,
        PollAction::Cleanup => event is CleanedUp,
        PollAction::Finish => false,
    }
}

/// A new poller asks for its state. A step follows the transition for its event, and where
/// there is none gives nothing and leaves the poller as it is.
pub proof fn law_poll_step(
    w: &mut PollWorker,
    event: PollEvent,
    r: Option<PollAction<String>>,
    new: (PollWorker, PollAction<String>),
)
    requires
        call_ensures(PollWorker::step, (w, event), r),
        call_ensures(PollWorker::start, (), new),
    ensures
        r is Some <==> poll_next(old(w)@, event) is Some,
        r is Some ==> final(w)@ == (poll_next(old(w)@, event)->0).0,
        r is Some ==> r->0@ == (poll_next(old(w)@, event)->0).1,
        r is None ==> final(w)@ == old(w)@,
        new.0@ is Starting,
        new.1 is Init,
{
}

/// Actions are seen as they are.
pub proof fn law_poll_actions_are_seen(a: PollAction<String>)
    ensures
        a is Init <==> a@ is Init,
        a is CheckRunning <==> a@ is CheckRunning,
        a is Pop <==> a@ is Pop,
        a is Poll <==> a@ is Poll,
        a is RecordReceived <==> a@ is RecordReceived,
        a is RecordError <==> a@ is RecordError,
        a is Settle <==> a@ is Settle,
        a is Requeue <==> a@ is Requeue,
        a is Sleep <==> a@ is Sleep,
        a is Yield <==> a@ is Yield,
        a is Cleanup <==> a@ is Cleanup,
        a is Finish <==> a@ is Finish,
        a matches PollAction::Poll(task) ==> a@ == PollAction::<Seq<char>>::Poll(task),
        a matches PollAction::RecordReceived(stage, latency_ns) ==> a@ == PollAction::<
            Seq<char>,
        >::RecordReceived(stage, latency_ns),
        a matches PollAction::RecordError(stage, reason) ==> a@ == PollAction::<
            Seq<char>,
        >::RecordError(stage, reason@),
        a matches PollAction::Requeue(task) ==> a@ == PollAction::<Seq<char>>::Requeue(task),
        a matches PollAction::Sleep(span) ==> a@ == PollAction::<Seq<char>>::Sleep(span),
{
}

/// A poller goes on just where it gets an answer to what it asked for.
pub proof fn law_poll_takes_answers(events: Seq<PollEvent>, event: PollEvent)
    requires
        poll_run(events) is Some,
    ensures
        poll_run(events.push(event)) is Some <==> poll_answers(poll_asks(events), event),
{
    assert(events.push(event).drop_last() =~= events);
}

/// What a poller asks for next. It reads the flag before every task, polls the task that it took,
/// and records its completion or failure for the stage of that task, or puts it back and lets
/// 100 microseconds pass; once the flag is cleared it cleans up.
pub proof fn law_poll_asks_next(events: Seq<PollEvent>, event: PollEvent)
    requires
        poll_run(events.push(event)) is Some,
    ensures
        ({
            let asked = poll_asks(events);
            let next = poll_asks(events.push(event));
            &&& event is Initialized ==> next is CheckRunning
            &&& event == PollEvent::Running(true) ==> next is Pop
            &&& event == PollEvent::Running(false) ==> next is Cleanup
            &&& event matches PollEvent::Popped(popped) ==> match popped {
                Some(task) => next == PollAction::<Seq<char>>::Poll(task),
                None => next is Yield,
            }
            &&& event matches PollEvent::Polled(result) ==> {
                &&& asked matches PollAction::Poll(task) && match result {
                    PollResult::Completed { latency_ns } => next == PollAction::<
                        Seq<char>,
                    >::RecordReceived(task.stage, latency_ns),
                    PollResult::Pending => next == PollAction::<Seq<char>>::Requeue(task),
                    PollResult::Error(reason) => next == PollAction::<Seq<char>>::RecordError(
                        task.stage,
                        reason@,
                    ),
                }
            }
            &&& event is Recorded ==> next is Settle
            &&& event is Settled ==> next is CheckRunning
            &&& event is Requeued ==> next == PollAction::<Seq<char>>::Sleep(
                Span { secs: 0, nanos: 100_000 },
            )
            &&& event is Slept ==> next is CheckRunning
            &&& event is Yielded ==> next is CheckRunning
            &&& event is CleanedUp ==> next is Finish
        }),
{
    assert(events.push(event).drop_last() =~= events);
    if event is Polled {
        assert(poll_run(events) is Some);
        assert(poll_run(events.drop_last()) is Some);
    }
}

/// Every setter sets its own setting to what is given, and leaves all others as they are.
pub proof fn law_async_task_setters<S, Q, P>(
    b: AsyncTaskBenchmark<S, Q, P>,
    rate: Float,
    n: usize,
    span: Span,
    secs: u64,
    path: String,
    on: bool,
    r: AsyncTaskBenchmark<S, Q, P>,
)
    ensures
        call_ensures(AsyncTaskBenchmark::<S, Q, P>::submit_workers, (b, n), r) ==> r == (
        AsyncTaskBenchmark {
            submit_workers: r.submit_workers,
            ..b
        }) && (n >= 1 ==> r.submit_workers == n) && (n == 0 ==> r.submit_workers == 1),
        call_ensures(AsyncTaskBenchmark::<S, Q, P>::poll_workers, (b, n), r) ==> r == (
        AsyncTaskBenchmark {
            poll_workers: r.poll_workers,
            ..b
        }) && (n >= 1 ==> r.poll_workers == n) && (n == 0 ==> r.poll_workers == 1),
        call_ensures(AsyncTaskBenchmark::<S, Q, P>::rate, (b, rate), r) ==> r == (
        AsyncTaskBenchmark {
            rate,
            ..b
        }),
        call_ensures(AsyncTaskBenchmark::<S, Q, P>::ramp_up, (b, span), r) ==> r == (
        AsyncTaskBenchmark {
            ramp_up: Some(span),
            ..b
        }),
        call_ensures(AsyncTaskBenchmark::<S, Q, P>::ramp_start_rate, (b, rate), r) ==> r == (
        AsyncTaskBenchmark {
            ramp_start_rate: r.ramp_start_rate,
            ..b
        }) && (rate.bits <= 0x7ff0_0000_0000_0000 ==> r.ramp_start_rate == rate) && (rate.bits
            > 0x7ff0_0000_0000_0000 && rate.bits != 0x8000_0000_0000_0000
            ==> r.ramp_start_rate.bits == 0),
        call_ensures(AsyncTaskBenchmark::<S, Q, P>::burst_factor, (b, rate), r) ==> r == (
        AsyncTaskBenchmark {
            burst_factor: r.burst_factor,
            ..b
        }) && (0x3f50_624d_d2f1_a9fc <= rate.bits <= 0x408f_4000_0000_0000 ==> r.burst_factor
            == rate) && (rate.bits < 0x3f50_624d_d2f1_a9fc || 0x8000_0000_0000_0000 <= rate.bits
            <= 0xfff0_0000_0000_0000 ==> r.burst_factor.bits == 0x3f50_624d_d2f1_a9fc) && (
        0x408f_4000_0000_0000 < rate.bits <= 0x7ff0_0000_0000_0000 ==> r.burst_factor.bits
            == 0x408f_4000_0000_0000) && (0x7ff0_0000_0000_0000 < rate.bits < 0x8000_0000_0000_0000
            || rate.bits > 0xfff0_0000_0000_0000 ==> r.burst_factor == rate),
        call_ensures(AsyncTaskBenchmark::<S, Q, P>::show_ramp_progress, (b, on), r) ==> r == (
        AsyncTaskBenchmark {
            show_ramp_progress: on,
            ..b
        }),
        call_ensures(AsyncTaskBenchmark::<S, Q, P>::duration, (b, span), r) ==> r == (
        AsyncTaskBenchmark {
            duration: span,
            ..b
        }),
        call_ensures(AsyncTaskBenchmark::<S, Q, P>::duration_secs, (b, secs), r) ==> r == (
        AsyncTaskBenchmark {
            duration: Span { secs, nanos: 0 },
            ..b
        }),
        forall|timeout: Option<Span>| #[trigger]
            call_ensures(AsyncTaskBenchmark::<S, Q, P>::drain_timeout, (b, timeout), r) ==> r == (
            AsyncTaskBenchmark {
                drain_timeout: timeout,
                ..b
            }),
        call_ensures(AsyncTaskBenchmark::<S, Q, P>::drain_timeout_secs, (b, secs), r) ==> r == (
        AsyncTaskBenchmark {
            drain_timeout: Some(Span { secs, nanos: 0 }),
            ..b
        }),
        call_ensures(AsyncTaskBenchmark::<S, Q, P>::csv, (b, path), r) ==> r == (
        AsyncTaskBenchmark {
            csv_path: Some(path),
            ..b
        }),
        call_ensures(AsyncTaskBenchmark::<S, Q, P>::progress, (b, on), r) ==> r == (
        AsyncTaskBenchmark {
            show_progress: on,
            ..b
        }),
{
    law_or_zero(rate, rate.spec_or_zero());
    law_burst_range(rate);
}

/// The work of both roles and the formatter are taken on as they are, with all settings kept.
pub proof fn law_async_task_parts<S, Q, P, S2, Q2, P2>(
    b: AsyncTaskBenchmark<S, Q, P>,
    first: S2,
    second: Q2,
    f: P2,
    with_first: AsyncTaskBenchmark<S2, Q, P>,
    with_second: AsyncTaskBenchmark<S, Q2, P>,
    with_progress: AsyncTaskBenchmark<S, Q, P2>,
)
    requires
        call_ensures(AsyncTaskBenchmark::<S, Q, P>::submitter::<S2>, (b, first), with_first),
        call_ensures(AsyncTaskBenchmark::<S, Q, P>::poller::<Q2>, (b, second), with_second),
        call_ensures(AsyncTaskBenchmark::<S, Q, P>::on_progress::<P2>, (b, f), with_progress),
    ensures
        with_first == (AsyncTaskBenchmark {
            submit_workers: b.submit_workers,
            poll_workers: b.poll_workers,
            rate: b.rate,
            ramp_up: b.ramp_up,
            ramp_start_rate: b.ramp_start_rate,
            burst_factor: b.burst_factor,
            show_ramp_progress: b.show_ramp_progress,
            duration: b.duration,
            drain_timeout: b.drain_timeout,
            csv_path: b.csv_path,
            show_progress: b.show_progress,
            progress_fn: b.progress_fn,
            submitter: Some(first),
            poller: b.poller,
        }),
        with_second == (AsyncTaskBenchmark {
            submit_workers: b.submit_workers,
            poll_workers: b.poll_workers,
            rate: b.rate,
            ramp_up: b.ramp_up,
            ramp_start_rate: b.ramp_start_rate,
            burst_factor: b.burst_factor,
            show_ramp_progress: b.show_ramp_progress,
            duration: b.duration,
            drain_timeout: b.drain_timeout,
            csv_path: b.csv_path,
            show_progress: b.show_progress,
            progress_fn: b.progress_fn,
            submitter: b.submitter,
            poller: Some(second),
        }),
        with_progress == (AsyncTaskBenchmark {
            submit_workers: b.submit_workers,
            poll_workers: b.poll_workers,
            rate: b.rate,
            ramp_up: b.ramp_up,
            ramp_start_rate: b.ramp_start_rate,
            burst_factor: b.burst_factor,
            show_ramp_progress: b.show_ramp_progress,
            duration: b.duration,
            drain_timeout: b.drain_timeout,
            csv_path: b.csv_path,
            show_progress: b.show_progress,
            progress_fn: Some(f),
            submitter: b.submitter,
            poller: b.poller,
        }),
{
}

/// The settings where nothing is given: two submitters, two pollers, 500 tasks per second (whose
/// bit pattern stands here), no ramp, ten seconds, thirty seconds of draining, progress shown.
pub proof fn law_async_task_defaults(b: AsyncTaskBenchmark<(), (), ()>)
    requires
        call_ensures(AsyncTaskBenchmark::<(), (), ()>::new, (), b) || call_ensures(
            <AsyncTaskBenchmark<(), (), ()> as Default>::default,
            (),
            b,
        ),
    ensures
        b.submit_workers == 2,
        b.poll_workers == 2,
        b.rate.bits == 0x407f_4000_0000_0000,
        b.ramp_up is None,
        b.ramp_start_rate.bits == 0,
        b.burst_factor.bits == 0x3fb9_9999_9999_999a,
        b.show_ramp_progress,
        b.duration == (Span { secs: 10, nanos: 0 }),
        b.drain_timeout == Some(Span { secs: 30, nanos: 0 }),
        b.csv_path is None,
        b.show_progress,
        b.progress_fn is None,
        b.submitter is None,
        b.poller is None,
{
    let rate = Float { bits: 0x407f_4000_0000_0000 };
    vstd::arithmetic::power2::lemma2_to64();
    vstd::arithmetic::power2::lemma2_to64_rest();
    lemma_whole(0x407f_4000_0000_0000, 500, 44);
    law_equal_quantities(b.rate, rate);
}

/// A run starts at the rate of the ramp where there is one, and at its own otherwise; its
/// snapshots go to the file where one is named, and show progress where that is asked for.
pub proof fn law_async_task_start<S, Q, P>(
    b: AsyncTaskBenchmark<S, Q, P>,
    rate: Float,
    config: DualSnapshotConfig,
)
    requires
        call_ensures(AsyncTaskBenchmark::<S, Q, P>::start_rate, (&b,), rate),
        call_ensures(AsyncTaskBenchmark::<S, Q, P>::snapshots, (&b,), config),
    ensures
        b.ramp_up is Some ==> rate == b.ramp_start_rate,
        b.ramp_up is None ==> rate == b.rate,
        config.to_file == b.csv_path is Some,
        config.show_progress == b.show_progress,
        config.show_ramp_progress == b.show_ramp_progress,
{
}

/// The plan of a run, step by step. All submitters start, then all pollers, then the snapshots,
/// where there are any. Where the rate ramps, it rises to the target, and the ramp ends right
/// after. Then the run measures for its whole duration. The flag of the submitters is cleared
/// exactly once, right after that, and they are waited for. Then tasks drain, where that is
/// asked for, while the pollers still run: the flag that pollers watch is cleared exactly once,
/// after the drain and never before. Then the pollers are waited for, and the snapshots.
pub proof fn law_async_task_plan<S, Q, P>(b: AsyncTaskBenchmark<S, Q, P>, plan: Vec<RunStep>)
    requires
        call_ensures(AsyncTaskBenchmark::<S, Q, P>::run_plan, (&b,), plan),
    ensures
        ({
            let snapshots = b.show_progress || b.csv_path is Some;
            let ramps = b.ramp_up is Some;
            let drains = b.drain_timeout is Some;
            let more: int = if snapshots {
                1
            } else {
                0
            };
            let sleep: int = 2 + more + if ramps {
                2int
            } else {
                0int
            };
            let stop: int = sleep + 3 + if drains {
                1int
            } else {
                0int
            };
            &&& plan@.len() == stop + 2 + more
            &&& forall|i: int|
                0 <= i < plan@.len() ==> {
                    let step = #[trigger] plan@[i];
                    &&& step == RunStep::Stop(Signal::Submitting) <==> i == sleep + 1
                    &&& step == RunStep::Stop(Signal::Running) <==> i == stop
                    &&& step is Sleep <==> i == sleep
                    &&& step is Drain <==> drains && i == stop - 1
                    &&& step is Spawn <==> i == 0 || i == 1
                    &&& step is SpawnSnapshots <==> snapshots && i == 2
                    &&& step is Ramp <==> ramps && i == sleep - 2
                    &&& step is EndRamp <==> ramps && i == sleep - 1
                    &&& step is Join <==> i == sleep + 2 || i == stop + 1
                    &&& step is JoinSnapshots <==> snapshots && i == stop + 2
                }
            &&& plan@[0] == RunStep::Spawn(Role::Submitters, b.submit_workers)
            &&& plan@[1] == RunStep::Spawn(Role::Pollers, b.poll_workers)
            &&& b.ramp_up matches Some(over) ==> plan@[sleep - 2] == (RunStep::Ramp {
                from: b.ramp_start_rate,
                to: b.rate,
                over,
            })
            &&& plan@[sleep] == RunStep::Sleep(b.duration)
            &&& plan@[sleep + 2] == RunStep::Join(Role::Submitters)
            &&& b.drain_timeout matches Some(timeout) ==> plan@[stop - 1] == RunStep::Drain(timeout)
            &&& plan@[stop + 1] == RunStep::Join(Role::Pollers)
        }),
{
}

/// The results hold the summaries of both roles in the measured stage, each from its own snapshot
/// and with its own errors, and the settings as they were.
pub proof fn law_async_task_results<S, Q, P>(
    b: AsyncTaskBenchmark<S, Q, P>,
    submitted: StatsSnapshot,
    completed: StatsSnapshot,
    submit_errors: Vec<ErrorCount>,
    poll_errors: Vec<ErrorCount>,
    r: AsyncTaskResults,
)
    requires
        call_ensures(
            AsyncTaskBenchmark::<S, Q, P>::results,
            (b, &submitted, &completed, submit_errors, poll_errors),
            r,
        ),
    ensures
        r.submitted.total_ops == submitted.sent_count,
        submitted.error_count <= submitted.sent_count ==> r.submitted.successes
            == submitted.sent_count - submitted.error_count,
        r.submitted.errors == submitted.error_count,
        r.submitted.throughput == submitted.total_throughput,
        r.submitted.error_breakdown@ == submit_errors@,
        r.submitted.of_submits(submitted, submit_errors@),
        r.completed.total_ops == completed.received_count,
        r.completed.successes == completed.received_count,
        r.completed.errors == completed.error_count,
        r.completed.throughput == completed.total_throughput,
        r.completed.latency_p50_ns == completed.latency_ns_p50,
        r.completed.latency_p95_ns == completed.latency_ns_p95,
        r.completed.latency_p99_ns == completed.latency_ns_p99,
        r.completed.error_breakdown@ == poll_errors@,
        r.completed.of_receipts(completed, poll_errors@),
        r.submit_workers == b.submit_workers,
        r.poll_workers == b.poll_workers,
        r.target_rate == b.rate,
        r.duration == b.duration,
        r.csv_path == b.csv_path,
{
}

/// In every column of the table stands the figure that the header names there; what is in flight
/// is what was submitted and not completed.
pub proof fn law_async_task_columns(
    submitted: StatsSnapshot,
    completed: StatsSnapshot,
    text: RowText,
    header: String,
    row: String,
)
    requires
        call_ensures(csv_header, (), header),
        call_ensures(csv_row, (&submitted, &completed, &text), row),
    ensures
        ({
            let names = header_fields();
            let figures = row_fields(submitted, completed, text);
            let in_flight: int = if submitted.sent_count >= completed.received_count {
                submitted.sent_count - completed.received_count
            } else {
                0
            };
            &&& header@ == comma_separated(names) && row@ == comma_separated(figures)
            &&& names.len() == 8 && figures.len() == 8
            &&& names[0] == "timestamp"@
            &&& figures[0] == decimal(submitted.timestamp as nat)
            &&& names[1] == "submitted"@
            &&& figures[1] == decimal(submitted.sent_count as nat)
            &&& names[2] == "completed"@
            &&& figures[2] == decimal(completed.received_count as nat)
            &&& names[3] == "in_flight"@
            &&& figures[3] == decimal(in_flight as nat)
            &&& names[4] == "throughput"@
            &&& figures[4] == text.throughput@
            &&& names[5] == "p50_ms"@
            &&& figures[5] == text.p50_ms@
            &&& names[6] == "p95_ms"@
            &&& figures[6] == text.p95_ms@
            &&& names[7] == "p99_ms"@
            &&& figures[7] == text.p99_ms@
        }),
{
}

/// The default progress line shows what was submitted, completed and is in flight.
pub proof fn law_async_task_progress_line(
    submitted: StatsSnapshot,
    completed: StatsSnapshot,
    p50_ms: &str,
    r: String,
)
    requires
        call_ensures(progress_line, (&submitted, &completed, p50_ms), r),
    ensures
        ({
            let in_flight: int = if submitted.sent_count >= completed.received_count {
                submitted.sent_count - completed.received_count
            } else {
                0
            };
            r@ == "  "@ + decimal(submitted.sent_count as nat) + " submitted | "@ + decimal(
                completed.received_count as nat,
            ) + " completed | "@ + decimal(in_flight as nat) + " in-flight | p50="@ + p50_ms@
                + "ms"@
        }),
{
    reveal_with_fuel(joined, 12);
    let in_flight = monus(submitted.sent_count, completed.received_count);
    assert(r@ =~= "  "@ + decimal(submitted.sent_count as nat) + " submitted | "@ + decimal(
        completed.received_count as nat,
    ) + " completed | "@ + decimal(in_flight as nat) + " in-flight | p50="@ + p50_ms@ + "ms"@);
}

} // verus!
