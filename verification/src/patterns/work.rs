//! Results of single operations, and the summaries of a run.

use crate::float::{law_positive, Float};
use crate::metrics::errors::{
    breakdown, error_line, is_ranking, law_ranks, ranks, ErrorCount, ErrorCounter,
};
use crate::metrics::snapshot::StatsSnapshot;
use crate::span::Span;
use crate::text::{decimal, decimal_text, joined, joined_text, push_line, push_lines, slices,
    texts};
use std::sync::atomic::{AtomicBool, Ordering};
use std::sync::Arc;
use vstd::prelude::*;
use vstd::string::*;

verus! {

// ---------------------------------------------------------------------------
// Results of single operations
// ---------------------------------------------------------------------------

/// Result of one request/response work unit.
#[derive(Clone, Debug)]
pub enum WorkResult {
    /// The operation succeeded, with its latency in nanoseconds.
    Success(u64),
    /// The operation failed, with the reason.
    Error(String),
}

impl WorkResult {
    /// A success with its latency in nanoseconds.
    pub fn success(latency_ns: u64) -> (r: WorkResult)
        ensures
            r == WorkResult::Success(latency_ns),
    {
        WorkResult::Success(latency_ns)
    }

    /// A failure with its reason.
    pub fn error(reason: String) -> (r: WorkResult)
        ensures
            r == WorkResult::Error(reason),
    {
        WorkResult::Error(reason)
    }
}

/// Result of polling an asynchronous task.
#[derive(Clone, Debug)]
pub enum PollResult {
    /// The task is complete, with its end-to-end latency in nanoseconds.
    Completed { latency_ns: u64 },
    /// The task is still in process; it will be polled again.
    Pending,
    /// The poll failed, with the reason.
    Error(String),
}

/// Handle through which a consumer, which owns its event loop, reports to the run.
///
/// `S` is the handle to the statistics that take the consumed items.
#[derive(Clone)]
pub struct ConsumerRecorder<S> {
    /// Where consumed items are reported.
    pub stats: S,
    /// Cleared when the run ends.
    pub running: Arc<AtomicBool>,
}

impl<S> ConsumerRecorder<S> {
    /// A recorder that reports to `stats` while `running` is set.
    pub fn new(stats: S, running: Arc<AtomicBool>) -> (r: ConsumerRecorder<S>)
        ensures
            r.stats == stats,
            r.running == running,
    {
        ConsumerRecorder { stats, running }
    }

    /// Whether the run goes on: the present state of the shared flag, which the run clears
    /// at any time. A consumer leaves its loop once this is `false`. The result is what
    /// [`AtomicBool::load`] gives for that flag.
    pub fn is_running(&self) -> (r: bool)
        ensures
            call_ensures(AtomicBool::load, (&*self.running, Ordering::Relaxed), r),
    {
        self.running.load(Ordering::Relaxed)
    }
}

// ---------------------------------------------------------------------------
// Summary of one role
// ---------------------------------------------------------------------------

/// Final figures of one role in a run. Latencies are in nanoseconds, and zero for roles
/// that do not measure any.
pub struct BenchmarkSummary {
    /// Operations attempted.
    pub total_ops: u64,
    /// Operations that succeeded.
    pub successes: u64,
    /// Operations that failed.
    pub errors: u64,
    /// Operations per second.
    pub throughput: Float,
    pub latency_p25_ns: u64,
    pub latency_p50_ns: u64,
    pub latency_p75_ns: u64,
    pub latency_p95_ns: u64,
    pub latency_p99_ns: u64,
    pub latency_min_ns: u64,
    pub latency_max_ns: u64,
    pub latency_mean_ns: Float,
    pub latency_stddev_ns: Float,
    /// Latencies recorded.
    pub latency_samples: u64,
    /// Errors by reason.
    pub error_breakdown: Vec<ErrorCount>,
}

/// The fractional figures of a summary as text, latencies in milliseconds.
pub struct SummaryText {
    pub throughput: String,
    pub success_rate: String,
    pub latency_min: String,
    pub latency_p50: String,
    pub latency_p95: String,
    pub latency_p99: String,
    pub latency_max: String,
    pub latency_mean: String,
    pub latency_stddev: String,
}

/// `a - b`, or zero where that is negative.
pub open spec fn monus(a: u64, b: u64) -> u64 {
    if a >= b {
        (a - b) as u64
    } else {
        0
    }
}

impl BenchmarkSummary {
    /// Whether the latency figures are those of the snapshot.
    pub open spec fn measures(self, snap: StatsSnapshot) -> bool {
        &&& self.latency_p25_ns == snap.latency_ns_p25
        &&& self.latency_p50_ns == snap.latency_ns_p50
        &&& self.latency_p75_ns == snap.latency_ns_p75
        &&& self.latency_p95_ns == snap.latency_ns_p95
        &&& self.latency_p99_ns == snap.latency_ns_p99
        &&& self.latency_min_ns == snap.latency_ns_min
        &&& self.latency_max_ns == snap.latency_ns_max
        &&& self.latency_mean_ns == snap.latency_ns_mean
        &&& self.latency_stddev_ns == snap.latency_ns_stddev
        &&& self.latency_samples == snap.latency_sample_count
    }

    /// Whether no latency is measured: every figure is zero.
    pub open spec fn measures_nothing(self) -> bool {
        let zero = Float { bits: 0 };
        &&& self.latency_p25_ns == 0
        &&& self.latency_p50_ns == 0
        &&& self.latency_p75_ns == 0
        &&& self.latency_p95_ns == 0
        &&& self.latency_p99_ns == 0
        &&& self.latency_min_ns == 0
        &&& self.latency_max_ns == 0
        &&& self.latency_mean_ns == zero
        &&& self.latency_stddev_ns == zero
        &&& self.latency_samples == 0
    }

    /// Whether this summarises a role that measures latency (request/response).
    pub open spec fn of_requests(self, snap: StatsSnapshot, errors: Seq<ErrorCount>) -> bool {
        &&& self.total_ops == snap.sent_count
        &&& self.successes == snap.received_count
        &&& self.errors == snap.error_count
        &&& self.throughput == snap.total_throughput
        &&& self.measures(snap)
        &&& self.error_breakdown@ == errors
    }

    /// Whether this summarises a role that counts every attempt as sent (submitters).
    pub open spec fn of_submits(self, snap: StatsSnapshot, errors: Seq<ErrorCount>) -> bool {
        &&& self.total_ops == snap.sent_count
        &&& self.successes == monus(snap.sent_count, snap.error_count)
        &&& self.errors == snap.error_count
        &&& self.throughput == snap.total_throughput
        &&& self.measures_nothing()
        &&& self.error_breakdown@ == errors
    }

    /// Whether this summarises a role that counts only what succeeded as sent (producers).
    pub open spec fn of_products(self, snap: StatsSnapshot, errors: Seq<ErrorCount>) -> bool {
        &&& self.total_ops == (if snap.sent_count + snap.error_count > u64::MAX {
            u64::MAX as int
        } else {
            snap.sent_count + snap.error_count
        })
        &&& self.successes == snap.sent_count
        &&& self.errors == snap.error_count
        &&& self.throughput == snap.total_throughput
        &&& self.measures_nothing()
        &&& self.error_breakdown@ == errors
    }

    /// Whether this summarises a role that only receives (consumers, completions).
    pub open spec fn of_receipts(self, snap: StatsSnapshot, errors: Seq<ErrorCount>) -> bool {
        &&& self.total_ops == snap.received_count
        &&& self.successes == snap.received_count
        &&& self.errors == snap.error_count
        &&& self.throughput == snap.total_throughput
        &&& self.measures(snap)
        &&& self.error_breakdown@ == errors
    }

    /// The summary of a role that measures latency (request/response).
    pub fn from_snapshot(snap: &StatsSnapshot, error_breakdown: Vec<ErrorCount>) -> (r: Self)
        ensures
            r.of_requests(*snap, error_breakdown@),
    {
        BenchmarkSummary {
            total_ops: snap.sent_count,
            successes: snap.received_count,
            errors: snap.error_count,
            throughput: snap.total_throughput,
            latency_p25_ns: snap.latency_ns_p25,
            latency_p50_ns: snap.latency_ns_p50,
            latency_p75_ns: snap.latency_ns_p75,
            latency_p95_ns: snap.latency_ns_p95,
            latency_p99_ns: snap.latency_ns_p99,
            latency_min_ns: snap.latency_ns_min,
            latency_max_ns: snap.latency_ns_max,
            latency_mean_ns: snap.latency_ns_mean,
            latency_stddev_ns: snap.latency_ns_stddev,
            latency_samples: snap.latency_sample_count,
            error_breakdown,
        }
    }

    /// A summary without latency figures.
    fn without_latency(
        total_ops: u64,
        successes: u64,
        errors: u64,
        throughput: Float,
        error_breakdown: Vec<ErrorCount>,
    ) -> (r: Self)
        ensures
            r.total_ops == total_ops,
            r.successes == successes,
            r.errors == errors,
            r.throughput == throughput,
            r.measures_nothing(),
            r.error_breakdown == error_breakdown,
    {
        BenchmarkSummary {
            total_ops,
            successes,
            errors,
            throughput,
            latency_p25_ns: 0,
            latency_p50_ns: 0,
            latency_p75_ns: 0,
            latency_p95_ns: 0,
            latency_p99_ns: 0,
            latency_min_ns: 0,
            latency_max_ns: 0,
            latency_mean_ns: Float { bits: 0 },
            latency_stddev_ns: Float { bits: 0 },
            latency_samples: 0,
            error_breakdown,
        }
    }

    /// The summary of a role that counts every attempt as sent (submitters).
    pub fn from_snapshot_send_only(
        snap: &StatsSnapshot,
        error_breakdown: Vec<ErrorCount>,
    ) -> (r: Self)
        ensures
            r.of_submits(*snap, error_breakdown@),
    {
        Self::without_latency(
            snap.sent_count,
            snap.sent_count.saturating_sub(snap.error_count),
            snap.error_count,
            snap.total_throughput,
            error_breakdown,
        )
    }

    /// The summary of a role that counts only what succeeded as sent (producers).
    pub fn from_snapshot_produced(
        snap: &StatsSnapshot,
        error_breakdown: Vec<ErrorCount>,
    ) -> (r: Self)
        ensures
            r.of_products(*snap, error_breakdown@),
    {
        Self::without_latency(
            snap.sent_count.saturating_add(snap.error_count),
            snap.sent_count,
            snap.error_count,
            snap.total_throughput,
            error_breakdown,
        )
    }

    /// The summary of a role that only receives (consumers, completions).
    pub fn from_snapshot_recv_only(
        snap: &StatsSnapshot,
        error_breakdown: Vec<ErrorCount>,
    ) -> (r: Self)
        ensures
            r.of_receipts(*snap, error_breakdown@),
    {
        let mut summary: BenchmarkSummary = Self::from_snapshot(snap, error_breakdown);
        summary.total_ops = snap.received_count;
        summary
    }
}

/// The lines of a summary under a label, its errors in the given order.
pub open spec fn summary_block(
    summary: BenchmarkSummary,
    label: Seq<char>,
    text: SummaryText,
    order: Seq<usize>,
) -> Seq<Seq<char>> {
    seq![
        joined(seq!["  "@, label]),
        joined(seq!["    Throughput:  "@, text.throughput@, " ops/s"@]),
        joined(
            seq![
                "    Operations:  "@,
                decimal(summary.total_ops as nat),
                " total, "@,
                decimal(summary.successes as nat),
                " ok, "@,
                decimal(summary.errors as nat),
                " errors ("@,
                text.success_rate@,
                "% success)"@,
            ],
        ),
    ] + breakdown(summary.error_breakdown@, order) + if summary.latency_samples > 0 {
        seq![
            "    Latency (ms):"@,
            joined(
                seq![
                    "      min="@,
                    text.latency_min@,
                    "  p50="@,
                    text.latency_p50@,
                    "  p95="@,
                    text.latency_p95@,
                    "  p99="@,
                    text.latency_p99@,
                    "  max="@,
                    text.latency_max@,
                ],
            ),
            joined(seq!["      mean="@, text.latency_mean@, "  stddev="@, text.latency_stddev@]),
        ]
    } else {
        seq![]
    }
}

impl BenchmarkSummary {
    /// Whether `lines` are the lines of this summary, the errors ranked by frequency.
    pub open spec fn reads(
        self,
        label: Seq<char>,
        text: SummaryText,
        lines: Seq<Seq<char>>,
    ) -> bool {
        exists|order: Seq<usize>| #[trigger]
            is_ranking(self.error_breakdown@, order) && lines == summary_block(
                self,
                label,
                text,
                order,
            )
    }

    /// The lines that print this summary under a label.
    pub fn print_lines(&self, label: &str, text: &SummaryText) -> (lines: Vec<String>)
        ensures
            self.reads(label@, *text, texts(lines@)),
    {
        let mut errors: Vec<String> = ErrorCounter::summary_lines(&self.error_breakdown);
        let ghost order = choose|order: Seq<usize>| #[trigger]
            is_ranking(self.error_breakdown@, order) && texts(errors@) == breakdown(
                self.error_breakdown@,
                order,
            );
        let total: String = decimal_text(self.total_ops);
        let ok: String = decimal_text(self.successes);
        let failed: String = decimal_text(self.errors);
        let mut lines: Vec<String> = Vec::new();
        let head: Vec<&str> = vec!["  ", label];
        assert(slices(head@) =~= seq!["  "@, label@]);
        lines.push(joined_text(head));
        let throughput: Vec<&str> = vec![
            "    Throughput:  ",
            text.throughput.as_str(),
            " ops/s",
        ];
        assert(slices(throughput@) =~= seq![
            "    Throughput:  "@,
            text.throughput@,
            " ops/s"@,
        ]);
        lines.push(joined_text(throughput));
        let operations: Vec<&str> = vec![
            "    Operations:  ",
            total.as_str(),
            " total, ",
            ok.as_str(),
            " ok, ",
            failed.as_str(),
            " errors (",
            text.success_rate.as_str(),
            "% success)",
        ];
        assert(slices(operations@) =~= seq![
            "    Operations:  "@,
            decimal(self.total_ops as nat),
            " total, "@,
            decimal(self.successes as nat),
            " ok, "@,
            decimal(self.errors as nat),
            " errors ("@,
            text.success_rate@,
            "% success)"@,
        ]);
        lines.push(joined_text(operations));
        lines.append(&mut errors);
        if self.latency_samples > 0 {
            lines.push("    Latency (ms):".to_owned());
            let quantiles: Vec<&str> = vec![
                "      min=",
                text.latency_min.as_str(),
                "  p50=",
                text.latency_p50.as_str(),
                "  p95=",
                text.latency_p95.as_str(),
                "  p99=",
                text.latency_p99.as_str(),
                "  max=",
                text.latency_max.as_str(),
            ];
            assert(slices(quantiles@) =~= seq![
                "      min="@,
                text.latency_min@,
                "  p50="@,
                text.latency_p50@,
                "  p95="@,
                text.latency_p95@,
                "  p99="@,
                text.latency_p99@,
                "  max="@,
                text.latency_max@,
            ]);
            lines.push(joined_text(quantiles));
            let spread: Vec<&str> = vec![
                "      mean=",
                text.latency_mean.as_str(),
                "  stddev=",
                text.latency_stddev.as_str(),
            ];
            assert(slices(spread@) =~= seq![
                "      mean="@,
                text.latency_mean@,
                "  stddev="@,
                text.latency_stddev@,
            ]);
            lines.push(joined_text(spread));
        }
        assert(texts(lines@) =~= summary_block(*self, label@, *text, order));
        lines
    }
}

// ---------------------------------------------------------------------------
// Results of a run
// ---------------------------------------------------------------------------

/// The lines that name the output file, where there is one.
pub open spec fn csv_lines(csv_path: Option<String>) -> Seq<Seq<char>> {
    match csv_path {
        Some(path) => seq![seq![], joined(seq!["  CSV: "@, path@])],
        None => seq![],
    }
}

/// Adds the lines that name the output file, where there is one.
fn push_csv_lines(lines: &mut Vec<String>, csv_path: &Option<String>)
    ensures
        texts(final(lines)@) == texts(old(lines)@) + csv_lines(*csv_path),
{
    match csv_path {
        Some(path) => {
            lines.push(String::new());
            let line: Vec<&str> = vec!["  CSV: ", path.as_str()];
            assert(slices(line@) =~= seq!["  CSV: "@, path@]);
            lines.push(joined_text(line));
            assert(texts(lines@) =~= texts(old(lines)@) + csv_lines(*csv_path));
        },
        None => {
            assert(texts(lines@) =~= texts(old(lines)@) + csv_lines(*csv_path));
        },
    }
}

/// Results of a request/response run.
pub struct BenchmarkResults {
    pub summary: BenchmarkSummary,
    /// Target rate of all workers together; zero or below means unlimited.
    pub target_rate: Float,
    pub workers: usize,
    pub duration: Span,
    pub csv_path: Option<String>,
}

/// The fractional figures of request/response results as text.
pub struct BenchmarkResultsText {
    pub duration: String,
    pub target_rate: String,
    pub summary: SummaryText,
}

impl BenchmarkResults {
    /// The target as reported.
    pub open spec fn target(self, text: BenchmarkResultsText) -> Seq<char> {
        if self.target_rate.at_most(Float { bits: 0 }) {
            "unlimited"@
        } else {
            text.target_rate@
        }
    }

    /// The lines of the report around those of the summary.
    pub open spec fn report(self, text: BenchmarkResultsText, summary: Seq<Seq<char>>) -> Seq<
        Seq<char>,
    > {
        seq![
            seq![],
            "BENCHMARK RESULTS"@,
            joined(
                seq![
                    "  Duration: "@,
                    text.duration@,
                    "s | Workers: "@,
                    decimal(self.workers as nat),
                    " | Target: "@,
                    self.target(text),
                    " req/s"@,
                ],
            ),
            seq![],
        ] + summary + csv_lines(self.csv_path) + seq![seq![]]
    }

    /// The lines of the report.
    pub fn summary_lines(&self, text: &BenchmarkResultsText) -> (lines: Vec<String>)
        ensures
            exists|summary: Seq<Seq<char>>| #[trigger]
                self.summary.reads("Request"@, text.summary, summary) && texts(lines@)
                    == self.report(*text, summary),
    {
        let workers: String = decimal_text(self.workers as u64);
        let target: &str = if self.target_rate.le(Float { bits: 0 }) {
            "unlimited"
        } else {
            text.target_rate.as_str()
        };
        let mut lines: Vec<String> = Vec::new();
        push_line(&mut lines, String::new());
        push_line(&mut lines, "BENCHMARK RESULTS".to_owned());
        let setup: Vec<&str> = vec![
            "  Duration: ",
            text.duration.as_str(),
            "s | Workers: ",
            workers.as_str(),
            " | Target: ",
            target,
            " req/s",
        ];
        assert(slices(setup@) =~= seq![
            "  Duration: "@,
            text.duration@,
            "s | Workers: "@,
            decimal(self.workers as nat),
            " | Target: "@,
            self.target(*text),
            " req/s"@,
        ]);
        push_line(&mut lines, joined_text(setup));
        push_line(&mut lines, String::new());
        let summary: Vec<String> = self.summary.print_lines("Request", &text.summary);
        let ghost summary_texts = texts(summary@);
        push_lines(&mut lines, summary);
        push_csv_lines(&mut lines, &self.csv_path);
        push_line(&mut lines, String::new());
        assert(texts(lines@) =~= self.report(*text, summary_texts));
        lines
    }

    /// Operations per second.
    pub fn throughput(&self) -> (r: Float)
        ensures
            r == self.summary.throughput,
    {
        self.summary.throughput
    }

    /// Operations that failed.
    pub fn errors(&self) -> (r: u64)
        ensures
            r == self.summary.errors,
    {
        self.summary.errors
    }

    /// Operations attempted.
    pub fn sent(&self) -> (r: u64)
        ensures
            r == self.summary.total_ops,
    {
        self.summary.total_ops
    }

    /// Operations that succeeded.
    pub fn received(&self) -> (r: u64)
        ensures
            r == self.summary.successes,
    {
        self.summary.successes
    }
}

/// Results of a producer/consumer run.
pub struct ProducerConsumerResults {
    pub produced: BenchmarkSummary,
    pub consumed: BenchmarkSummary,
    pub producers: usize,
    pub consumers: usize,
    pub target_rate: Float,
    pub duration: Span,
    pub csv_path: Option<String>,
}

/// The fractional figures of producer/consumer results as text.
pub struct ProducerConsumerResultsText {
    pub duration: String,
    pub target_rate: String,
    pub produced: SummaryText,
    pub consumed: SummaryText,
}

impl ProducerConsumerResults {
    /// Items produced and not consumed.
    pub fn in_flight(&self) -> (r: u64)
        ensures
            r == monus(self.produced.successes, self.consumed.successes),
    {
        self.produced.successes.saturating_sub(self.consumed.successes)
    }

    /// The lines of the report around those of the two summaries.
    pub open spec fn report(
        self,
        text: ProducerConsumerResultsText,
        produced: Seq<Seq<char>>,
        consumed: Seq<Seq<char>>,
    ) -> Seq<Seq<char>> {
        seq![
            seq![],
            "PRODUCER/CONSUMER RESULTS"@,
            joined(
                seq![
                    "  Duration: "@,
                    text.duration@,
                    "s | Producers: "@,
                    decimal(self.producers as nat),
                    " | Consumers: "@,
                    decimal(self.consumers as nat),
                    " | Target: "@,
                    text.target_rate@,
                    " msg/s"@,
                ],
            ),
            joined(
                seq![
                    "  In-flight: "@,
                    decimal(monus(self.produced.successes, self.consumed.successes) as nat),
                ],
            ),
            seq![],
        ] + produced + seq![seq![]] + consumed + csv_lines(self.csv_path) + seq![seq![]]
    }

    /// The lines of the report.
    pub fn summary_lines(&self, text: &ProducerConsumerResultsText) -> (lines: Vec<String>)
        ensures
            exists|produced: Seq<Seq<char>>, consumed: Seq<Seq<char>>|
                #![trigger self.report(*text, produced, consumed)]
                self.produced.reads("Produced"@, text.produced, produced) && self.consumed.reads(
                    "Consumed (queue latency)"@,
                    text.consumed,
                    consumed,
                ) && texts(lines@) == self.report(*text, produced, consumed),
    {
        let producers: String = decimal_text(self.producers as u64);
        let consumers: String = decimal_text(self.consumers as u64);
        let in_flight: String = decimal_text(self.in_flight());
        let mut lines: Vec<String> = Vec::new();
        push_line(&mut lines, String::new());
        push_line(&mut lines, "PRODUCER/CONSUMER RESULTS".to_owned());
        let setup: Vec<&str> = vec![
            "  Duration: ",
            text.duration.as_str(),
            "s | Producers: ",
            producers.as_str(),
            " | Consumers: ",
            consumers.as_str(),
            " | Target: ",
            text.target_rate.as_str(),
            " msg/s",
        ];
        assert(slices(setup@) =~= seq![
            "  Duration: "@,
            text.duration@,
            "s | Producers: "@,
            decimal(self.producers as nat),
            " | Consumers: "@,
            decimal(self.consumers as nat),
            " | Target: "@,
            text.target_rate@,
            " msg/s"@,
        ]);
        push_line(&mut lines, joined_text(setup));
        let between: Vec<&str> = vec!["  In-flight: ", in_flight.as_str()];
        assert(slices(between@) =~= seq![
            "  In-flight: "@,
            decimal(monus(self.produced.successes, self.consumed.successes) as nat),
        ]);
        push_line(&mut lines, joined_text(between));
        push_line(&mut lines, String::new());
        let produced: Vec<String> = self.produced.print_lines("Produced", &text.produced);
        let ghost produced_texts = texts(produced@);
        push_lines(&mut lines, produced);
        push_line(&mut lines, String::new());
        let consumed: Vec<String> = self.consumed.print_lines(
            "Consumed (queue latency)",
            &text.consumed,
        );
        let ghost consumed_texts = texts(consumed@);
        push_lines(&mut lines, consumed);
        push_csv_lines(&mut lines, &self.csv_path);
        push_line(&mut lines, String::new());
        assert(texts(lines@) =~= self.report(*text, produced_texts, consumed_texts));
        lines
    }
}

/// Results of a submit-and-poll run.
pub struct AsyncTaskResults {
    pub submitted: BenchmarkSummary,
    pub completed: BenchmarkSummary,
    pub submit_workers: usize,
    pub poll_workers: usize,
    pub target_rate: Float,
    pub duration: Span,
    pub csv_path: Option<String>,
}

/// The fractional figures of submit-and-poll results as text.
pub struct AsyncTaskResultsText {
    pub duration: String,
    pub target_rate: String,
    pub submitted: SummaryText,
    pub completed: SummaryText,
}

impl AsyncTaskResults {
    /// Tasks submitted and not completed.
    pub fn in_flight(&self) -> (r: u64)
        ensures
            r == monus(self.submitted.successes, self.completed.successes),
    {
        self.submitted.successes.saturating_sub(self.completed.successes)
    }

    /// The lines of the report around those of the two summaries.
    pub open spec fn report(
        self,
        text: AsyncTaskResultsText,
        submitted: Seq<Seq<char>>,
        completed: Seq<Seq<char>>,
    ) -> Seq<Seq<char>> {
        seq![
            seq![],
            "ASYNC TASK RESULTS"@,
            joined(
                seq![
                    "  Duration: "@,
                    text.duration@,
                    "s | Submit: "@,
                    decimal(self.submit_workers as nat),
                    " workers @ "@,
                    text.target_rate@,
                    "/s | Poll: "@,
                    decimal(self.poll_workers as nat),
                    " workers"@,
                ],
            ),
            joined(
                seq![
                    "  In-flight: "@,
                    decimal(monus(self.submitted.successes, self.completed.successes) as nat),
                ],
            ),
            seq![],
        ] + submitted + seq![seq![]] + completed + csv_lines(self.csv_path) + seq![seq![]]
    }

    /// The lines of the report.
    pub fn summary_lines(&self, text: &AsyncTaskResultsText) -> (lines: Vec<String>)
        ensures
            exists|submitted: Seq<Seq<char>>, completed: Seq<Seq<char>>|
                #![trigger self.report(*text, submitted, completed)]
                self.submitted.reads("Submit"@, text.submitted, submitted) && self.completed.reads(
                    "Completed (task latency)"@,
                    text.completed,
                    completed,
                ) && texts(lines@) == self.report(*text, submitted, completed),
    {
        let submit_workers: String = decimal_text(self.submit_workers as u64);
        let poll_workers: String = decimal_text(self.poll_workers as u64);
        let in_flight: String = decimal_text(self.in_flight());
        let mut lines: Vec<String> = Vec::new();
        push_line(&mut lines, String::new());
        push_line(&mut lines, "ASYNC TASK RESULTS".to_owned());
        let setup: Vec<&str> = vec![
            "  Duration: ",
            text.duration.as_str(),
            "s | Submit: ",
            submit_workers.as_str(),
            " workers @ ",
            text.target_rate.as_str(),
            "/s | Poll: ",
            poll_workers.as_str(),
            " workers",
        ];
        assert(slices(setup@) =~= seq![
            "  Duration: "@,
            text.duration@,
            "s | Submit: "@,
            decimal(self.submit_workers as nat),
            " workers @ "@,
            text.target_rate@,
            "/s | Poll: "@,
            decimal(self.poll_workers as nat),
            " workers"@,
        ]);
        push_line(&mut lines, joined_text(setup));
        let between: Vec<&str> = vec!["  In-flight: ", in_flight.as_str()];
        assert(slices(between@) =~= seq![
            "  In-flight: "@,
            decimal(monus(self.submitted.successes, self.completed.successes) as nat),
        ]);
        push_line(&mut lines, joined_text(between));
        push_line(&mut lines, String::new());
        let submitted: Vec<String> = self.submitted.print_lines("Submit", &text.submitted);
        let ghost submitted_texts = texts(submitted@);
        push_lines(&mut lines, submitted);
        push_line(&mut lines, String::new());
        let completed: Vec<String> = self.completed.print_lines(
            "Completed (task latency)",
            &text.completed,
        );
        let ghost completed_texts = texts(completed@);
        push_lines(&mut lines, completed);
        push_csv_lines(&mut lines, &self.csv_path);
        push_line(&mut lines, String::new());
        assert(texts(lines@) =~= self.report(*text, submitted_texts, completed_texts));
        lines
    }
}

// ---------------------------------------------------------------------------
// What the summaries and results hold
// ---------------------------------------------------------------------------

/// The constructors keep what they are given.
pub proof fn law_single_results(latency_ns: u64, reason: String, r: WorkResult)
    ensures
        call_ensures(WorkResult::success, (latency_ns,), r) ==> r == WorkResult::Success(
            latency_ns,
        ),
        call_ensures(WorkResult::error, (reason,), r) ==> r == WorkResult::Error(reason),
{
}

/// A recorder reports to the statistics and watches the flag that it was given.
pub proof fn law_recorder<S>(
    stats: S,
    running: Arc<AtomicBool>,
    c: ConsumerRecorder<S>,
    goes_on: bool,
)
    requires
        call_ensures(ConsumerRecorder::<S>::new, (stats, running), c),
        call_ensures(ConsumerRecorder::<S>::is_running, (&c,), goes_on),
    ensures
        c.stats == stats,
        c.running == running,
        call_ensures(AtomicBool::load, (&*running, Ordering::Relaxed), goes_on),
{
}

/// Every figure of a request/response summary is the snapshot's figure of the same name: the
/// operations sent, received and failed, and each latency figure under its own percentile.
pub proof fn law_summary_of_requests(
    snap: StatsSnapshot,
    errors: Vec<ErrorCount>,
    r: BenchmarkSummary,
)
    requires
        call_ensures(BenchmarkSummary::from_snapshot, (&snap, errors), r) || r.of_requests(
            snap,
            errors@,
        ),
    ensures
        r.total_ops == snap.sent_count,
        r.successes == snap.received_count,
        r.errors == snap.error_count,
        r.throughput == snap.total_throughput,
        r.latency_p25_ns == snap.latency_ns_p25,
        r.latency_p50_ns == snap.latency_ns_p50,
        r.latency_p75_ns == snap.latency_ns_p75,
        r.latency_p95_ns == snap.latency_ns_p95,
        r.latency_p99_ns == snap.latency_ns_p99,
        r.latency_min_ns == snap.latency_ns_min,
        r.latency_max_ns == snap.latency_ns_max,
        r.latency_mean_ns == snap.latency_ns_mean,
        r.latency_stddev_ns == snap.latency_ns_stddev,
        r.latency_samples == snap.latency_sample_count,
        r.error_breakdown@ == errors@,
{
}

/// Every figure of a summary of receipts is the snapshot's figure of the same name, and what
/// was received is also all that was attempted.
pub proof fn law_summary_of_receipts(
    snap: StatsSnapshot,
    errors: Vec<ErrorCount>,
    r: BenchmarkSummary,
)
    requires
        call_ensures(BenchmarkSummary::from_snapshot_recv_only, (&snap, errors), r)
            || r.of_receipts(snap, errors@),
    ensures
        r.total_ops == snap.received_count,
        r.successes == snap.received_count,
        r.errors == snap.error_count,
        r.throughput == snap.total_throughput,
        r.latency_p25_ns == snap.latency_ns_p25,
        r.latency_p50_ns == snap.latency_ns_p50,
        r.latency_p75_ns == snap.latency_ns_p75,
        r.latency_p95_ns == snap.latency_ns_p95,
        r.latency_p99_ns == snap.latency_ns_p99,
        r.latency_min_ns == snap.latency_ns_min,
        r.latency_max_ns == snap.latency_ns_max,
        r.latency_mean_ns == snap.latency_ns_mean,
        r.latency_stddev_ns == snap.latency_ns_stddev,
        r.latency_samples == snap.latency_sample_count,
        r.error_breakdown@ == errors@,
{
}

/// A summary of submissions counts every attempt as sent, so that what succeeded is what was
/// sent and did not fail. It measures no latency.
pub proof fn law_summary_of_submits(
    snap: StatsSnapshot,
    errors: Vec<ErrorCount>,
    r: BenchmarkSummary,
)
    requires
        call_ensures(BenchmarkSummary::from_snapshot_send_only, (&snap, errors), r) || r.of_submits(
            snap,
            errors@,
        ),
    ensures
        r.total_ops == snap.sent_count,
        snap.error_count <= snap.sent_count ==> r.successes + r.errors == r.total_ops,
        snap.error_count > snap.sent_count ==> r.successes == 0,
        r.errors == snap.error_count,
        r.throughput == snap.total_throughput,
        r.latency_p25_ns == 0,
        r.latency_p50_ns == 0,
        r.latency_p75_ns == 0,
        r.latency_p95_ns == 0,
        r.latency_p99_ns == 0,
        r.latency_min_ns == 0,
        r.latency_max_ns == 0,
        r.latency_mean_ns.bits == 0,
        r.latency_stddev_ns.bits == 0,
        r.latency_samples == 0,
        r.error_breakdown@ == errors@,
{
}

/// A summary of products counts as sent what succeeded, so that the attempts are what was sent
/// and what failed together, as far as 64 bits can count. It measures no latency.
pub proof fn law_summary_of_products(
    snap: StatsSnapshot,
    errors: Vec<ErrorCount>,
    r: BenchmarkSummary,
)
    requires
        call_ensures(BenchmarkSummary::from_snapshot_produced, (&snap, errors), r) || r.of_products(
            snap,
            errors@,
        ),
    ensures
        r.successes == snap.sent_count,
        r.errors == snap.error_count,
        snap.sent_count + snap.error_count <= u64::MAX ==> r.total_ops == r.successes + r.errors,
        snap.sent_count + snap.error_count > u64::MAX ==> r.total_ops == u64::MAX,
        r.throughput == snap.total_throughput,
        r.latency_p25_ns == 0,
        r.latency_p50_ns == 0,
        r.latency_p75_ns == 0,
        r.latency_p95_ns == 0,
        r.latency_p99_ns == 0,
        r.latency_min_ns == 0,
        r.latency_max_ns == 0,
        r.latency_mean_ns.bits == 0,
        r.latency_stddev_ns.bits == 0,
        r.latency_samples == 0,
        r.error_breakdown@ == errors@,
{
}

/// The figures of request/response results are those of the summary.
pub proof fn law_result_figures(b: BenchmarkResults, n: u64, x: Float)
    ensures
        call_ensures(BenchmarkResults::throughput, (&b,), x) ==> x == b.summary.throughput,
        call_ensures(BenchmarkResults::errors, (&b,), n) ==> n == b.summary.errors,
        call_ensures(BenchmarkResults::sent, (&b,), n) ==> n == b.summary.total_ops,
        call_ensures(BenchmarkResults::received, (&b,), n) ==> n == b.summary.successes,
{
}

/// What is in flight was produced or submitted and is not consumed or completed: together with
/// what is, it makes up what was. Where more came back than went out, nothing is in flight.
pub proof fn law_in_flight(p: ProducerConsumerResults, a: AsyncTaskResults, n: u64)
    ensures
        call_ensures(ProducerConsumerResults::in_flight, (&p,), n) ==> (if p.produced.successes
            >= p.consumed.successes {
            n + p.consumed.successes == p.produced.successes
        } else {
            n == 0
        }),
        call_ensures(AsyncTaskResults::in_flight, (&a,), n) ==> (if a.submitted.successes
            >= a.completed.successes {
            n + a.completed.successes == a.submitted.successes
        } else {
            n == 0
        }),
{
}

// ---------------------------------------------------------------------------
// What the reports read
// ---------------------------------------------------------------------------

/// The lines of a printed summary: the label, the throughput, the operations by outcome, a line
/// for every reason under a heading where there are errors, and, where latencies were recorded,
/// the latency figures, each under its own name.
pub proof fn law_summary_reads(
    summary: BenchmarkSummary,
    label: Seq<char>,
    text: SummaryText,
    lines: Seq<Seq<char>>,
)
    requires
        summary.reads(label, text, lines),
    ensures
        ({
            let n = summary.error_breakdown@.len() as int;
            let reasons = if n == 0 {
                0int
            } else {
                n + 1
            };
            &&& lines.len() == 3 + reasons + (if summary.latency_samples > 0 {
                3int
            } else {
                0int
            })
            &&& lines[0] == "  "@ + label
            &&& lines[1] == "    Throughput:  "@ + text.throughput@ + " ops/s"@
            &&& lines[2] == "    Operations:  "@ + decimal(summary.total_ops as nat)
                + " total, "@ + decimal(summary.successes as nat) + " ok, "@ + decimal(
                summary.errors as nat,
            ) + " errors ("@ + text.success_rate@ + "% success)"@
            &&& n > 0 ==> lines[3] == "  Errors:"@
            &&& exists|order: Seq<usize>| #[trigger]
                ranks(summary.error_breakdown@, order) && forall|k: int|
                    0 <= k < n ==> #[trigger] lines[4 + k] == "    "@
                        + summary.error_breakdown@[order[k] as int].reason@ + ": "@ + decimal(
                        summary.error_breakdown@[order[k] as int].count as nat,
                    )
            &&& summary.latency_samples > 0 ==> {
                &&& lines[3 + reasons] == "    Latency (ms):"@
                &&& lines[4 + reasons] == "      min="@ + text.latency_min@ + "  p50="@
                    + text.latency_p50@ + "  p95="@ + text.latency_p95@ + "  p99="@
                    + text.latency_p99@ + "  max="@ + text.latency_max@
                &&& lines[5 + reasons] == "      mean="@ + text.latency_mean@ + "  stddev="@
                    + text.latency_stddev@
            }
        }),
{
    let errors = summary.error_breakdown@;
    let order = choose|order: Seq<usize>| #[trigger]
        is_ranking(errors, order) && lines == summary_block(summary, label, text, order);
    assert(summary.error_breakdown.len() == errors.len());
    law_ranks(errors, order);
    reveal_with_fuel(joined, 12);
    let block = summary_block(summary, label, text, order);
    assert(block[0] =~= "  "@ + label);
    assert(block[1] =~= "    Throughput:  "@ + text.throughput@ + " ops/s"@);
    assert(block[2] =~= "    Operations:  "@ + decimal(summary.total_ops as nat) + " total, "@
        + decimal(summary.successes as nat) + " ok, "@ + decimal(summary.errors as nat)
        + " errors ("@ + text.success_rate@ + "% success)"@);
    let n = errors.len() as int;
    let reasons = if n == 0 {
        0
    } else {
        n + 1
    };
    assert(breakdown(errors, order).len() == reasons);
    assert(block.len() == 3 + reasons + if summary.latency_samples > 0 {
        3int
    } else {
        0int
    });
    assert forall|k: int| 0 <= k < n implies #[trigger] lines[4 + k] == "    "@
        + errors[order[k] as int].reason@ + ": "@ + decimal(
        errors[order[k] as int].count as nat,
    ) by {
        assert(block[4 + k] == breakdown(errors, order)[1 + k]);
        assert(breakdown(errors, order)[1 + k] == error_line(errors[order[k] as int]));
    }
    if n > 0 {
        assert(block[3] == breakdown(errors, order)[0]);
    }
    if summary.latency_samples > 0 {
        assert(block[4 + reasons] =~= "      min="@ + text.latency_min@ + "  p50="@
            + text.latency_p50@ + "  p95="@ + text.latency_p95@ + "  p99="@ + text.latency_p99@
            + "  max="@ + text.latency_max@);
        assert(block[5 + reasons] =~= "      mean="@ + text.latency_mean@ + "  stddev="@
            + text.latency_stddev@);
    }
}

/// What a summary prints reads as [`law_summary_reads`] says.
pub proof fn law_printed_summary(
    summary: BenchmarkSummary,
    label: &str,
    text: SummaryText,
    lines: Vec<String>,
)
    requires
        call_ensures(BenchmarkSummary::print_lines, (&summary, label, &text), lines),
    ensures
        summary.reads(label@, text, Seq::new(lines@.len(), |k: int| lines@[k]@)),
{
    assert(texts(lines@) =~= Seq::new(lines@.len(), |k: int| lines@[k]@));
}

/// Whether lines hold others from a place on.
pub open spec fn holds_at(lines: Seq<String>, at: int, others: Seq<Seq<char>>) -> bool {
    &&& 0 <= at && at + others.len() <= lines.len()
    &&& forall|k: int| 0 <= k < others.len() ==> #[trigger] others[k] == lines[at + k]@
}

/// Whether lines end with an empty one, before it, where there is an output file, an empty line
/// and the line that names it; `at` is where that starts.
pub open spec fn closes(lines: Seq<String>, at: int, csv_path: Option<String>) -> bool {
    match csv_path {
        Some(path) => {
            &&& lines.len() == at + 3
            &&& lines[at]@.len() == 0
            &&& lines[at + 1]@ == "  CSV: "@ + path@
            &&& lines[at + 2]@.len() == 0
        },
        None => lines.len() == at + 1 && lines[at]@.len() == 0,
    }
}

/// A request/response report: the settings, the summary of the requests, and the output file.
/// A target rate of zero or below reads as unlimited.
pub proof fn law_request_report(
    b: BenchmarkResults,
    text: BenchmarkResultsText,
    lines: Vec<String>,
)
    requires
        call_ensures(BenchmarkResults::summary_lines, (&b, &text), lines),
    ensures
        exists|summary: Seq<Seq<char>>| #[trigger]
            b.summary.reads("Request"@, text.summary, summary) && holds_at(lines@, 4, summary)
                && closes(lines@, 4int + summary.len(), b.csv_path),
        lines@[0]@.len() == 0,
        lines@[1]@ == "BENCHMARK RESULTS"@,
        lines@[2]@ == "  Duration: "@ + text.duration@ + "s | Workers: "@ + decimal(
            b.workers as nat,
        ) + " | Target: "@ + (if b.target_rate.bits == 0 || 0x8000_0000_0000_0000
            <= b.target_rate.bits <= 0xfff0_0000_0000_0000 {
            "unlimited"@
        } else {
            text.target_rate@
        }) + " req/s"@,
        lines@[3]@.len() == 0,
{
    let summary = choose|summary: Seq<Seq<char>>| #[trigger]
        b.summary.reads("Request"@, text.summary, summary) && texts(lines@) == b.report(
            text,
            summary,
        );
    let report = b.report(text, summary);
    reveal_with_fuel(joined, 12);
    law_positive(b.target_rate);
    assert(crate::float::magnitude(0) == 0);
    assert(report[2] =~= "  Duration: "@ + text.duration@ + "s | Workers: "@ + decimal(
        b.workers as nat,
    ) + " | Target: "@ + b.target(text) + " req/s"@);
    lemma_reports(lines@, report);
    if let Some(path) = b.csv_path {
        assert(report[4int + summary.len() + 1] =~= "  CSV: "@ + path@);
    }
    assert(holds_at(lines@, 4, summary));
    assert(closes(lines@, 4int + summary.len(), b.csv_path));
}

proof fn lemma_reports(lines: Seq<String>, report: Seq<Seq<char>>)
    requires
        texts(lines) == report,
    ensures
        lines.len() == report.len(),
        forall|k: int| #![trigger lines[k]] #![trigger report[k]] 0 <= k < lines.len() ==> lines[k]@
            == report[k],
{
    assert forall|k: int| #![trigger lines[k]] #![trigger report[k]] 0 <= k
        < lines.len() implies lines[k]@ == report[k] by {
        assert(texts(lines)[k] == lines[k]@);
    }
}

/// A producer/consumer report: the settings, what is in flight, the summaries of what was
/// produced and of what was consumed, in this order, and the output file.
pub proof fn law_producer_consumer_report(
    b: ProducerConsumerResults,
    text: ProducerConsumerResultsText,
    lines: Vec<String>,
    in_flight: u64,
)
    requires
        call_ensures(ProducerConsumerResults::summary_lines, (&b, &text), lines),
        call_ensures(ProducerConsumerResults::in_flight, (&b,), in_flight),
    ensures
        exists|produced: Seq<Seq<char>>, consumed: Seq<Seq<char>>|
            #[trigger] b.produced.reads("Produced"@, text.produced, produced)
                && #[trigger] b.consumed.reads(
                "Consumed (queue latency)"@,
                text.consumed,
                consumed,
            ) && holds_at(lines@, 5, produced) && lines@[5int + produced.len()]@.len() == 0
                && holds_at(lines@, 6int + produced.len(), consumed) && closes(
                lines@,
                6int + produced.len() + consumed.len(),
                b.csv_path,
            ),
        lines@[0]@.len() == 0,
        lines@[1]@ == "PRODUCER/CONSUMER RESULTS"@,
        lines@[2]@ == "  Duration: "@ + text.duration@ + "s | Producers: "@ + decimal(
            b.producers as nat,
        ) + " | Consumers: "@ + decimal(b.consumers as nat) + " | Target: "@ + text.target_rate@
            + " msg/s"@,
        lines@[3]@ == "  In-flight: "@ + decimal(in_flight as nat),
        lines@[4]@.len() == 0,
{
    let (produced, consumed) = choose|produced: Seq<Seq<char>>, consumed: Seq<Seq<char>>|
        #![trigger b.report(text, produced, consumed)]
        b.produced.reads("Produced"@, text.produced, produced) && b.consumed.reads(
            "Consumed (queue latency)"@,
            text.consumed,
            consumed,
        ) && texts(lines@) == b.report(text, produced, consumed);
    let report = b.report(text, produced, consumed);
    reveal_with_fuel(joined, 12);
    assert(report[2] =~= "  Duration: "@ + text.duration@ + "s | Producers: "@ + decimal(
        b.producers as nat,
    ) + " | Consumers: "@ + decimal(b.consumers as nat) + " | Target: "@ + text.target_rate@
        + " msg/s"@);
    assert(report[3] =~= "  In-flight: "@ + decimal(in_flight as nat));
    lemma_reports(lines@, report);
    let at = 6int + produced.len() + consumed.len();
    if let Some(path) = b.csv_path {
        assert(report[at + 1] =~= "  CSV: "@ + path@);
    }
    assert(holds_at(lines@, 5, produced));
    assert(holds_at(lines@, 6int + produced.len(), consumed));
    assert(closes(lines@, at, b.csv_path));
}

/// A submit-and-poll report: the settings, what is in flight, the summaries of what was
/// submitted and of what was completed, in this order, and the output file.
pub proof fn law_async_task_report(
    b: AsyncTaskResults,
    text: AsyncTaskResultsText,
    lines: Vec<String>,
    in_flight: u64,
)
    requires
        call_ensures(AsyncTaskResults::summary_lines, (&b, &text), lines),
        call_ensures(AsyncTaskResults::in_flight, (&b,), in_flight),
    ensures
        exists|submitted: Seq<Seq<char>>, completed: Seq<Seq<char>>|
            #[trigger] b.submitted.reads("Submit"@, text.submitted, submitted)
                && #[trigger] b.completed.reads(
                "Completed (task latency)"@,
                text.completed,
                completed,
            ) && holds_at(lines@, 5, submitted) && lines@[5int + submitted.len()]@.len() == 0
                && holds_at(lines@, 6int + submitted.len(), completed) && closes(
                lines@,
                6int + submitted.len() + completed.len(),
                b.csv_path,
            ),
        lines@[0]@.len() == 0,
        lines@[1]@ == "ASYNC TASK RESULTS"@,
        lines@[2]@ == "  Duration: "@ + text.duration@ + "s | Submit: "@ + decimal(
            b.submit_workers as nat,
        ) + " workers @ "@ + text.target_rate@ + "/s | Poll: "@ + decimal(b.poll_workers as nat)
            + " workers"@,
        lines@[3]@ == "  In-flight: "@ + decimal(in_flight as nat),
        lines@[4]@.len() == 0,
{
    let (submitted, completed) = choose|submitted: Seq<Seq<char>>, completed: Seq<Seq<char>>|
        #![trigger b.report(text, submitted, completed)]
        b.submitted.reads("Submit"@, text.submitted, submitted) && b.completed.reads(
            "Completed (task latency)"@,
            text.completed,
            completed,
        ) && texts(lines@) == b.report(text, submitted, completed);
    let report = b.report(text, submitted, completed);
    reveal_with_fuel(joined, 12);
    assert(report[2] =~= "  Duration: "@ + text.duration@ + "s | Submit: "@ + decimal(
        b.submit_workers as nat,
    ) + " workers @ "@ + text.target_rate@ + "/s | Poll: "@ + decimal(b.poll_workers as nat)
        + " workers"@);
    assert(report[3] =~= "  In-flight: "@ + decimal(in_flight as nat));
    lemma_reports(lines@, report);
    let at = 6int + submitted.len() + completed.len();
    if let Some(path) = b.csv_path {
        assert(report[at + 1] =~= "  CSV: "@ + path@);
    }
    assert(holds_at(lines@, 5, submitted));
    assert(holds_at(lines@, 6int + submitted.len(), completed));
    assert(closes(lines@, at, b.csv_path));
}

} // verus!
