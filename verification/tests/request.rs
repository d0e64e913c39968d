use lightbench::patterns::request::{
    progress_line, Limiter, ProgressText, RateMode, RequestAction, RequestEvent, RequestWorker, BATCH,
};
use lightbench::patterns::{
    clamp_burst, stage, Role, RunStep, Signal, SnapshotOutput, Stage, Staged,
};
use lightbench::{Benchmark, BenchmarkConfig, ErrorCount, Float, Span, StatsSnapshot, WorkResult};

fn f(x: f64) -> Float {
    Float::from_bits(x.to_bits())
}

fn snapshot(sent: u64, received: u64, failed: u64) -> StatsSnapshot {
    StatsSnapshot {
        timestamp: 1,
        sent_count: sent,
        received_count: received,
        error_count: failed,
        total_throughput: f(12.5),
        interval_throughput: f(13.5),
        latency_ns_p25: 25,
        latency_ns_p50: 50,
        latency_ns_p75: 75,
        latency_ns_p95: 95,
        latency_ns_p99: 99,
        latency_ns_min: 1,
        latency_ns_max: 100,
        latency_ns_mean: f(51.0),
        latency_ns_stddev: f(3.0),
        latency_sample_count: received,
        duplicate_count: 0,
        gap_count: 0,
        head_loss: 0,
    }
}

/// What a worker reported of the measured stage, and latencies of the ramp.
#[derive(Default)]
struct Log {
    sent: usize,
    batches: Vec<Vec<u64>>,
    failed: Vec<String>,
    created: usize,
    cleaned: usize,
    ramp_sent: usize,
    ramp_batches: Vec<Vec<u64>>,
    ramp_failed: Vec<String>,
}

/// Runs a worker over the given results, then clears the flag.
fn run_worker(results: Vec<WorkResult>) -> Log {
    run_ramped(results, 0)
}

/// Runs a worker over the given results, the first `ramp` of them in the ramp.
fn run_ramped(results: Vec<WorkResult>, ramp: usize) -> Log {
    let mut log = Log::default();
    let mut permits = 0;
    let mut results = results.into_iter();
    let mut left = results.len();
    let (mut worker, mut action) = RequestWorker::start();
    loop {
        let event = match action {
            RequestAction::Init => {
                log.created += 1;
                RequestEvent::Initialized
            }
            RequestAction::CheckRunning => RequestEvent::Running(left > 0),
            RequestAction::Acquire => {
                permits += 1;
                RequestEvent::Acquired(stage(permits <= ramp))
            }
            RequestAction::RecordSent(Stage::Measured) => {
                log.sent += 1;
                RequestEvent::Recorded
            }
            RequestAction::RecordSent(Stage::Ramp) => {
                log.ramp_sent += 1;
                RequestEvent::Recorded
            }
            RequestAction::Work => {
                left -= 1;
                RequestEvent::Worked(results.next().unwrap())
            }
            RequestAction::RecordBatch(Stage::Measured, batch) => {
                log.batches.push(batch);
                RequestEvent::Recorded
            }
            RequestAction::RecordBatch(Stage::Ramp, batch) => {
                log.ramp_batches.push(batch);
                RequestEvent::Recorded
            }
            RequestAction::RecordError(Stage::Measured, reason) => {
                log.failed.push(reason);
                RequestEvent::Recorded
            }
            RequestAction::RecordError(Stage::Ramp, reason) => {
                log.ramp_failed.push(reason);
                RequestEvent::Recorded
            }
            RequestAction::Cleanup => {
                log.cleaned += 1;
                RequestEvent::CleanedUp
            }
            RequestAction::Finish => return log,
        };
        action = worker.step(event).unwrap();
    }
}

#[test]
fn a_worker_without_work_only_cleans_up() {
    let log = run_worker(vec![]);
    assert_eq!(log.sent, 0);
    assert!(log.batches.is_empty());
    assert!(log.failed.is_empty());
    assert_eq!(log.created, 1);
    assert_eq!(log.cleaned, 1);
}

#[test]
fn latencies_are_reported_in_batches() {
    let log = run_worker((0..150).map(WorkResult::success).collect());
    assert_eq!(log.sent, 150);
    assert_eq!(BATCH, 64);
    assert_eq!(log.batches.iter().map(|b| b.len()).collect::<Vec<_>>(), vec![64, 64, 22]);
    assert_eq!(log.batches.concat(), (0..150).collect::<Vec<u64>>());
    assert_eq!(log.cleaned, 1);
}

#[test]
fn a_full_batch_leaves_nothing_over() {
    let log = run_worker((0..64).map(WorkResult::success).collect());
    assert_eq!(log.batches.len(), 1);
    assert_eq!(log.batches[0].len(), 64);
}

#[test]
fn every_operation_is_recorded_once() {
    let log = run_worker(vec![
        WorkResult::success(5),
        WorkResult::error("timeout".to_string()),
        WorkResult::success(7),
        WorkResult::error("refused".to_string()),
    ]);
    assert_eq!(log.sent, 4);
    assert_eq!(log.batches, vec![vec![5, 7]]);
    assert_eq!(log.failed, vec!["timeout", "refused"]);
}

#[test]
fn the_ramp_is_not_measured() {
    let mut results: Vec<WorkResult> = (0..70).map(WorkResult::success).collect();
    results.push(WorkResult::error("early".to_string()));
    results.push(WorkResult::error("late".to_string()));
    results.extend((100..105).map(WorkResult::success));
    let log = run_ramped(results, 71);
    assert_eq!((log.ramp_sent, log.sent), (71, 6));
    assert_eq!(log.ramp_batches.concat(), (0..70).collect::<Vec<u64>>());
    assert_eq!(log.batches, vec![(100..105).collect::<Vec<u64>>()]);
    assert_eq!(log.ramp_failed, vec!["early"]);
    assert_eq!(log.failed, vec!["late"]);
    assert_eq!((log.created, log.cleaned), (1, 1));
}

#[test]
fn totals_add_up_over_all_workers() {
    let logs: Vec<Log> = (0..4u64)
        .map(|k| {
            run_worker(
                (0..100 + k)
                    .map(|i| {
                        if i % 10 == 0 {
                            WorkResult::error(if i % 20 == 0 { "a" } else { "b" }.to_string())
                        } else {
                            WorkResult::success(i)
                        }
                    })
                    .collect(),
            )
        })
        .collect();
    let sent: usize = logs.iter().map(|l| l.sent).sum();
    let received: usize = logs.iter().map(|l| l.batches.concat().len()).sum();
    let mut counter = lightbench::ErrorCounter::new();
    for reason in logs.iter().flat_map(|l| &l.failed) {
        counter.record(reason);
    }
    let failed: usize = logs.iter().map(|l| l.failed.len()).sum();
    let r = Benchmark::new().workers(4).results(
        &snapshot(sent as u64, received as u64, failed as u64),
        counter.take(),
        f(0.0),
    );
    assert_eq!(r.sent(), 406);
    assert_eq!(r.received() + r.errors(), 406);
    assert_eq!(r.errors(), 43);
    assert_eq!(r.summary.error_breakdown.iter().map(|e| e.count).sum::<u64>(), 43);
    assert_eq!(logs.iter().map(|l| l.created).sum::<usize>(), 4);
    assert_eq!(logs.iter().map(|l| l.cleaned).sum::<usize>(), 4);
}

#[test]
fn each_stage_has_its_own() {
    assert_eq!(stage(true), Stage::Ramp);
    assert_eq!(stage(false), Stage::Measured);
    let both = Staged { ramp: 1, measured: 2 };
    assert_eq!(*both.of(Stage::Ramp), 1);
    assert_eq!(*both.of(Stage::Measured), 2);
}

#[test]
fn a_worker_refuses_events_out_of_order() {
    let (mut worker, action) = RequestWorker::start();
    assert!(matches!(action, RequestAction::Init));
    assert!(worker.step(RequestEvent::Acquired(Stage::Measured)).is_none());
    assert!(worker.step(RequestEvent::Recorded).is_none());
    assert!(matches!(worker.step(RequestEvent::Initialized), Some(RequestAction::CheckRunning)));
    assert!(worker.step(RequestEvent::Worked(WorkResult::success(1))).is_none());
    assert!(matches!(worker.step(RequestEvent::Running(true)), Some(RequestAction::Acquire)));
}

#[test]
fn work_results_are_made_by_name() {
    assert!(matches!(WorkResult::success(9), WorkResult::Success(9)));
    assert!(matches!(WorkResult::error("no".to_string()), WorkResult::Error(r) if r == "no"));
}

#[test]
fn request_defaults() {
    let b = Benchmark::new();
    assert_eq!(b.rate_mode, RateMode::Total(f(0.0)));
    assert_eq!(b.workers, 1);
    assert_eq!(b.duration, Span::from_secs(10));
    assert_eq!(b.warmup, Span::from_millis(100));
    assert_eq!(b.snapshot_interval, Span::from_secs(1));
    assert_eq!(b.burst_factor, f(0.1));
    assert!(b.show_progress);
    assert!(b.csv_path.is_none());
    assert_eq!(b.limiter(), Limiter::Unlimited);
    assert_eq!(Benchmark::default().workers, 1);
}

#[test]
fn request_settings_are_kept() {
    let b = Benchmark::new()
        .rate(f(1000.0))
        .workers(0)
        .duration(Span::from_millis(1500))
        .warmup(Span::from_secs(2))
        .snapshot_interval(Span::from_millis(250))
        .csv("results.csv".to_string())
        .progress(false)
        .on_progress("formatter")
        .work("work");
    assert_eq!(b.rate_mode, RateMode::Total(f(1000.0)));
    assert_eq!(b.workers, 1);
    assert_eq!(b.duration, Span::from_millis(1500));
    assert_eq!(b.warmup, Span::from_secs(2));
    assert_eq!(b.snapshot_interval, Span::from_millis(250));
    assert_eq!(b.csv_path.as_deref(), Some("results.csv"));
    assert!(!b.show_progress);
    assert_eq!(b.progress_fn, Some("formatter"));
    assert_eq!(b.work, Some("work"));
    let b = b.workers(8).duration_secs(3).no_warmup().snapshot_interval_secs(4);
    assert_eq!(b.workers, 8);
    assert_eq!(b.duration, Span::from_secs(3));
    assert!(b.warmup.is_zero());
    assert_eq!(b.snapshot_interval, Span::from_secs(4));
}

#[test]
fn rate_modes_share_the_rate_out() {
    let total = Benchmark::new().rate(f(1000.0));
    assert_eq!(total.limiter(), Limiter::Shared(f(1000.0)));
    assert_eq!(total.rate_mode.total_rate(f(4000.0)), f(1000.0));
    let per_worker = Benchmark::new().rate_per_worker(f(250.0));
    assert_eq!(per_worker.limiter(), Limiter::PerWorker(f(250.0)));
    assert_eq!(per_worker.rate_mode.total_rate(f(1000.0)), f(1000.0));
    for rate in [0.0, -1.0] {
        assert_eq!(Benchmark::new().rate(f(rate)).limiter(), Limiter::Unlimited);
        assert_eq!(Benchmark::new().rate_per_worker(f(rate)).limiter(), Limiter::Unlimited);
        assert!(RateMode::PerWorker(f(rate)).is_unlimited());
    }
    assert!(!RateMode::Total(f(0.5)).is_unlimited());
}

#[test]
fn a_ramp_needs_a_target() {
    let b = Benchmark::new().ramp_up(Span::from_secs(3)).ramp_start_rate(f(10.0));
    assert!(!b.is_ramped());
    assert_eq!(b.limiter(), Limiter::Unlimited);
    let b = b.rate(f(500.0));
    assert!(b.is_ramped());
    assert_eq!(b.limiter(), Limiter::RampedShared(f(10.0)));
    let b = b.rate_per_worker(f(500.0)).ramp_start_rate(f(-4.0));
    assert_eq!(b.limiter(), Limiter::RampedPerWorker(f(0.0)));
}

#[test]
fn burst_factors_are_held_to_a_range() {
    assert_eq!(clamp_burst(f(0.0)), f(0.001));
    assert_eq!(clamp_burst(f(0.25)), f(0.25));
    assert_eq!(clamp_burst(f(5000.0)), f(1000.0));
    assert_eq!(Benchmark::new().burst_factor(f(-1.0)).burst_factor, f(0.001));
}

#[test]
fn the_command_line_decides_the_settings() {
    let b = Benchmark::from_config(BenchmarkConfig::default());
    assert_eq!(b.rate_mode, RateMode::Total(f(0.0)));
    assert_eq!(b.workers, 4);
    assert_eq!(b.duration, Span::from_secs(5));
    assert!(b.show_progress);
    assert!(b.show_ramp_progress);
    assert_eq!(b.ramp_up, None);
    let b = Benchmark::from_config(BenchmarkConfig {
        rate_per_worker: Some(f(20.0)),
        workers: 0,
        ramp_up: Some(7),
        ramp_start_rate: f(3.0),
        burst_factor: f(0.5),
        csv: Some("out.csv".to_string()),
        no_progress: true,
        hide_ramp_progress: true,
        ..BenchmarkConfig::default()
    });
    assert_eq!(b.rate_mode, RateMode::PerWorker(f(20.0)));
    assert_eq!(b.workers, 1);
    assert_eq!(b.ramp_up, Some(Span::from_secs(7)));
    assert_eq!(b.ramp_start_rate, f(3.0));
    assert_eq!(b.burst_factor, f(0.5));
    assert_eq!(b.csv_path.as_deref(), Some("out.csv"));
    assert!(!b.show_progress);
    assert!(!b.show_ramp_progress);
    let b = Benchmark::from_config(BenchmarkConfig {
        rate: Some(f(100.0)),
        rate_per_worker: Some(f(20.0)),
        ..BenchmarkConfig::default()
    });
    assert_eq!(b.rate_mode, RateMode::Total(f(100.0)));
}

#[test]
fn a_request_run_goes_through_its_steps() {
    let b = Benchmark::new().workers(3).duration_secs(2);
    assert_eq!(
        b.run_plan(),
        vec![
            RunStep::Sleep(Span::from_millis(100)),
            RunStep::Spawn(Role::Requesters, 3),
            RunStep::SpawnSnapshots,
            RunStep::Sleep(Span::from_secs(2)),
            RunStep::Stop(Signal::Running),
            RunStep::Join(Role::Requesters),
            RunStep::JoinSnapshots,
        ]
    );
}

#[test]
fn a_request_run_ramps_before_it_measures() {
    let b = Benchmark::new()
        .no_warmup()
        .rate(f(100.0))
        .ramp_up(Span::from_secs(4))
        .ramp_start_rate(f(5.0));
    assert_eq!(
        b.run_plan(),
        vec![
            RunStep::Spawn(Role::Requesters, 1),
            RunStep::SpawnSnapshots,
            RunStep::Ramp { from: f(5.0), to: f(100.0), over: Span::from_secs(4) },
            RunStep::EndRamp,
            RunStep::Sleep(Span::from_secs(10)),
            RunStep::Stop(Signal::Running),
            RunStep::Join(Role::Requesters),
            RunStep::JoinSnapshots,
        ]
    );
}

fn shown(list: Vec<SnapshotOutput<String>>) -> Vec<String> {
    list.into_iter()
        .map(|o| match o {
            SnapshotOutput::File(line) => format!("file {line}"),
            SnapshotOutput::Stdout(line) => format!("stdout {line}"),
            SnapshotOutput::Progress(line) => format!("progress {line}"),
        })
        .collect()
}

#[test]
fn request_snapshots_go_to_the_chosen_outputs() {
    let quiet = Benchmark::new().progress(false).csv("x".to_string());
    assert_eq!(shown(quiet.snapshot_opening("h".to_string())), vec!["file h", "stdout h"]);
    assert_eq!(
        shown(quiet.snapshot("r".to_string(), Some("p".to_string()), false)),
        vec!["file r", "stdout r"]
    );
    let plain = Benchmark::new();
    assert!(shown(plain.snapshot_opening("h".to_string())).is_empty());
    assert_eq!(
        shown(plain.snapshot("r".to_string(), Some("p".to_string()), false)),
        vec!["progress p"]
    );
    assert_eq!(
        shown(plain.snapshot("r".to_string(), Some("p".to_string()), true)),
        vec!["progress [RAMP] p"]
    );
    assert!(shown(plain.snapshot("r".to_string(), None, false)).is_empty());
    let hidden = Benchmark::new().show_ramp_progress(false);
    assert!(!hidden.shows_progress(true));
    assert!(hidden.shows_progress(false));
    assert!(shown(hidden.snapshot("r".to_string(), Some("p".to_string()), true)).is_empty());
}

#[test]
fn request_results_come_from_the_last_snapshot() {
    let errors = vec![ErrorCount { reason: "timeout".to_string(), count: 3 }];
    let r = Benchmark::new().workers(2).duration_secs(6).csv("o".to_string()).results(
        &snapshot(100, 97, 3),
        errors,
        f(50.0),
    );
    assert_eq!(r.sent(), 100);
    assert_eq!(r.received(), 97);
    assert_eq!(r.errors(), 3);
    assert_eq!(r.throughput(), f(12.5));
    assert_eq!(r.summary.latency_p50_ns, 50);
    assert_eq!(r.summary.latency_max_ns, 100);
    assert_eq!(r.summary.latency_mean_ns, f(51.0));
    assert_eq!(r.summary.latency_samples, 97);
    assert_eq!(r.summary.error_breakdown.len(), 1);
    assert_eq!(r.target_rate, f(50.0));
    assert_eq!(r.workers, 2);
    assert_eq!(r.duration, Span::from_secs(6));
    assert_eq!(r.csv_path.as_deref(), Some("o"));
}

#[test]
fn request_progress_lines() {
    let text = ProgressText {
        rate: "14".to_string(),
        p50_ms: "0.05".to_string(),
        ok_percent: "97".to_string(),
    };
    assert_eq!(
        progress_line(&snapshot(100, 97, 3), &text),
        "  97 req | 14 req/s | p50=0.05ms | 97% ok"
    );
}
