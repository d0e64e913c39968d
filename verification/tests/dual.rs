use lightbench::patterns::async_task::{
    self, drain_step, DrainStep, PendingTasks, PollAction, PollEvent, PollWorker, SubmitAction,
    SubmitEvent, SubmitWorker, Task,
};
use lightbench::patterns::producer_consumer::{self, ProducerAction, ProducerEvent, ProducerWorker};
use lightbench::patterns::{
    stage, DualSnapshotConfig, Role, RunStep, Signal, SnapshotOutput, Stage,
};
use lightbench::{
    AsyncTaskBenchmark, ConsumerRecorder, ErrorCount, Float, PollResult, ProducerConsumerBenchmark,
    Span, StatsSnapshot,
};
use std::sync::atomic::{AtomicBool, Ordering};
use std::sync::Arc;

fn f(x: f64) -> Float {
    Float::from_bits(x.to_bits())
}

fn snapshot(sent: u64, received: u64, failed: u64) -> StatsSnapshot {
    StatsSnapshot {
        timestamp: 1700,
        sent_count: sent,
        received_count: received,
        error_count: failed,
        total_throughput: f(12.5),
        interval_throughput: f(13.5),
        latency_ns_p25: 25,
        latency_ns_p50: 50,
        latency_ns_p75: 75,
        latency_ns_p95: 95,
        latency_ns_p99: 99,
        latency_ns_min: 1,
        latency_ns_max: 100,
        latency_ns_mean: f(51.0),
        latency_ns_stddev: f(3.0),
        latency_sample_count: received,
        duplicate_count: 0,
        gap_count: 0,
        head_loss: 0,
    }
}

fn task(id: u64) -> Task {
    Task { id, stage: Stage::Measured }
}

#[test]
fn a_producer_records_every_attempt_once() {
    // The first attempt is made in the ramp.
    let mut results = vec![Ok(()), Ok(()), Err("full".to_string()), Ok(())].into_iter();
    let mut left: usize = 4;
    let mut ramp_sent = 0;
    let (mut sent, mut failed, mut permits, mut cleaned) = (0, Vec::new(), 0, 0);
    let (mut worker, mut action) = ProducerWorker::start();
    loop {
        let event = match action {
            ProducerAction::Init => ProducerEvent::Initialized,
            ProducerAction::CheckRunning => ProducerEvent::Running(left > 0),
            ProducerAction::Acquire => {
                permits += 1;
                ProducerEvent::Acquired(stage(permits == 1))
            }
            ProducerAction::Produce => {
                left -= 1;
                ProducerEvent::Produced(results.next().unwrap())
            }
            ProducerAction::RecordSent(Stage::Ramp) => {
                ramp_sent += 1;
                ProducerEvent::Recorded
            }
            ProducerAction::RecordSent(Stage::Measured) => {
                sent += 1;
                ProducerEvent::Recorded
            }
            ProducerAction::RecordError(stage, reason) => {
                assert_eq!(stage, Stage::Measured);
                failed.push(reason);
                ProducerEvent::Recorded
            }
            ProducerAction::Cleanup => {
                cleaned += 1;
                ProducerEvent::CleanedUp
            }
            ProducerAction::Finish => break,
        };
        action = worker.step(event).unwrap();
    }
    assert_eq!((ramp_sent, sent, permits, cleaned), (1, 2, 4, 1));
    assert_eq!(failed, vec!["full"]);
}

#[test]
fn a_producer_refuses_events_out_of_order() {
    let (mut worker, action) = ProducerWorker::start();
    assert!(matches!(action, ProducerAction::Init));
    assert!(worker.step(ProducerEvent::Produced(Ok(()))).is_none());
    assert!(matches!(worker.step(ProducerEvent::Initialized), Some(ProducerAction::CheckRunning)));
}

#[test]
fn a_consumer_sees_the_end_of_the_run() {
    let running = Arc::new(AtomicBool::new(true));
    let recorder = ConsumerRecorder::new(11u8, running.clone());
    assert_eq!(recorder.stats, 11);
    assert!(recorder.is_running());
    running.store(false, Ordering::SeqCst);
    assert!(!recorder.is_running());
}

#[test]
fn pending_tasks_come_out_latest_first() {
    let mut pending = PendingTasks::new();
    assert_eq!(pending.pop(), None);
    pending.push(task(1));
    pending.push(task(2));
    assert_eq!(pending.in_flight(), 2);
    assert_eq!(pending.pop(), Some(task(2)));
    assert_eq!(pending.pop(), Some(task(1)));
    assert_eq!(pending.pop(), None);
}

#[test]
fn held_tasks_are_in_flight() {
    let mut pending = PendingTasks::new();
    pending.push(task(1));
    pending.push(task(2));
    assert_eq!(pending.held(), 0);
    let taken = pending.pop().unwrap();
    assert_eq!((pending.held(), pending.in_flight()), (1, 2));
    pending.requeue(taken);
    assert_eq!((pending.held(), pending.in_flight()), (0, 2));
    pending.pop();
    pending.pop();
    assert_eq!((pending.held(), pending.in_flight()), (2, 2));
    assert_eq!(drain_step(pending.in_flight(), false), DrainStep::Wait(Span::from_millis(50)));
    pending.settle();
    pending.settle();
    assert_eq!((pending.held(), pending.in_flight()), (0, 0));
    assert_eq!(drain_step(pending.in_flight(), false), DrainStep::Drained);
}

#[test]
fn a_submitter_makes_tasks_pending() {
    // The first submission is made in the ramp.
    let mut tasks = vec![Some(5), Some(7), None, Some(9)].into_iter();
    let mut left: usize = 4;
    let mut permits = 0;
    let mut ramp_sent = 0;
    let mut pending = PendingTasks::new();
    let (mut sent, mut failed) = (0, Vec::new());
    let (mut worker, mut action) = SubmitWorker::start();
    loop {
        let event = match action {
            SubmitAction::Init => SubmitEvent::Initialized,
            SubmitAction::CheckRunning => SubmitEvent::Running(left > 0),
            SubmitAction::Acquire => {
                permits += 1;
                SubmitEvent::Acquired(stage(permits == 1))
            }
            SubmitAction::RecordSent(Stage::Ramp) => {
                ramp_sent += 1;
                SubmitEvent::Recorded
            }
            SubmitAction::RecordSent(Stage::Measured) => {
                sent += 1;
                SubmitEvent::Recorded
            }
            SubmitAction::Submit => {
                left -= 1;
                SubmitEvent::Submitted(tasks.next().unwrap())
            }
            SubmitAction::Push(task) => {
                pending.push(task);
                SubmitEvent::Pushed
            }
            SubmitAction::RecordError(stage, reason) => {
                assert_eq!(stage, Stage::Measured);
                failed.push(reason);
                SubmitEvent::Recorded
            }
            SubmitAction::Cleanup => SubmitEvent::CleanedUp,
            SubmitAction::Finish => break,
        };
        action = worker.step(event).unwrap();
    }
    assert_eq!((ramp_sent, sent), (1, 3));
    assert_eq!(failed, vec!["submit failed"]);
    assert_eq!(pending.pop(), Some(task(9)));
    assert_eq!(pending.pop(), Some(task(7)));
    assert_eq!(pending.pop(), Some(Task { id: 5, stage: Stage::Ramp }));
}

#[test]
fn a_poller_settles_every_task() {
    // Task 1 is pending on its first poll, task 2 fails, task 3 completes.
    let mut pending = PendingTasks::new();
    for id in [1, 2, 3] {
        pending.push(task(id));
    }
    let mut polls = 0;
    let (mut received, mut failed, mut pauses, mut yields) = (Vec::new(), Vec::new(), 0, 0);
    let (mut worker, mut action) = PollWorker::start();
    loop {
        let event = match action {
            PollAction::Init => PollEvent::Initialized,
            PollAction::CheckRunning => PollEvent::Running(yields == 0),
            PollAction::Pop => PollEvent::Popped(pending.pop()),
            PollAction::Poll(task) => PollEvent::Polled(match task.id {
                1 => {
                    polls += 1;
                    if polls == 1 {
                        PollResult::Pending
                    } else {
                        PollResult::Completed { latency_ns: 111 }
                    }
                }
                2 => PollResult::Error("lost".to_string()),
                _ => PollResult::Completed { latency_ns: 333 },
            }),
            PollAction::RecordReceived(stage, latency_ns) => {
                assert_eq!(stage, Stage::Measured);
                received.push(latency_ns);
                PollEvent::Recorded
            }
            PollAction::RecordError(stage, reason) => {
                assert_eq!(stage, Stage::Measured);
                failed.push(reason);
                PollEvent::Recorded
            }
            PollAction::Settle => {
                pending.settle();
                PollEvent::Settled
            }
            PollAction::Requeue(task) => {
                pending.requeue(task);
                PollEvent::Requeued
            }
            PollAction::Sleep(span) => {
                assert_eq!(span, Span { secs: 0, nanos: 100_000 });
                pauses += 1;
                PollEvent::Slept
            }
            PollAction::Yield => {
                yields += 1;
                PollEvent::Yielded
            }
            PollAction::Cleanup => PollEvent::CleanedUp,
            PollAction::Finish => break,
        };
        action = worker.step(event).unwrap();
    }
    assert_eq!(received, vec![333, 111]);
    assert_eq!(failed, vec!["lost"]);
    assert_eq!((pauses, polls), (1, 2));
    assert_eq!(pending.in_flight(), 0);
}

#[test]
fn submitters_and_pollers_refuse_events_out_of_order() {
    let (mut submitter, _) = SubmitWorker::start();
    assert!(submitter.step(SubmitEvent::Pushed).is_none());
    assert!(matches!(submitter.step(SubmitEvent::Initialized), Some(SubmitAction::CheckRunning)));
    let (mut poller, _) = PollWorker::start();
    assert!(poller.step(PollEvent::Popped(Some(task(1)))).is_none());
    assert!(matches!(poller.step(PollEvent::Initialized), Some(PollAction::CheckRunning)));
}

#[test]
fn tasks_of_the_ramp_are_not_measured() {
    let early = Task { id: 4, stage: Stage::Ramp };
    let (mut poller, _) = PollWorker::start();
    poller.step(PollEvent::Initialized);
    poller.step(PollEvent::Running(true));
    assert!(matches!(
        poller.step(PollEvent::Popped(Some(early))),
        Some(PollAction::Poll(task)) if task == early
    ));
    assert!(matches!(
        poller.step(PollEvent::Polled(PollResult::Completed { latency_ns: 8 })),
        Some(PollAction::RecordReceived(Stage::Ramp, 8))
    ));
    assert!(matches!(poller.step(PollEvent::Recorded), Some(PollAction::Settle)));
    assert!(matches!(poller.step(PollEvent::Settled), Some(PollAction::CheckRunning)));
}

#[test]
fn draining_ends_when_nothing_is_pending_or_time_is_up() {
    assert_eq!(drain_step(0, false), DrainStep::Drained);
    assert_eq!(drain_step(0, true), DrainStep::Drained);
    assert_eq!(drain_step(5, true), DrainStep::TimedOut { remaining: 5 });
    assert_eq!(drain_step(5, false), DrainStep::Wait(Span::from_millis(50)));
}

#[test]
fn producer_consumer_defaults() {
    let b = ProducerConsumerBenchmark::new();
    assert_eq!((b.producers, b.consumers), (1, 1));
    assert_eq!(b.rate, f(1000.0));
    assert_eq!(b.ramp_up, None);
    assert_eq!(b.ramp_start_rate, f(0.0));
    assert_eq!(b.burst_factor, f(0.1));
    assert!(b.show_ramp_progress);
    assert_eq!(b.duration, Span::from_secs(10));
    assert!(b.show_progress);
    assert_eq!(ProducerConsumerBenchmark::default().rate, f(1000.0));
}

#[test]
fn producer_consumer_settings_are_kept() {
    let b = ProducerConsumerBenchmark::new()
        .producers(0)
        .consumers(3)
        .rate(f(200.0))
        .ramp_up(Span::from_secs(2))
        .ramp_start_rate(f(-1.0))
        .burst_factor(f(2000.0))
        .show_ramp_progress(false)
        .duration_secs(4)
        .csv("out.csv".to_string())
        .progress(false)
        .on_progress("formatter")
        .producer("producer")
        .consumer("consumer");
    assert_eq!((b.producers, b.consumers), (1, 3));
    assert_eq!(b.rate, f(200.0));
    assert_eq!(b.ramp_up, Some(Span::from_secs(2)));
    assert_eq!(b.ramp_start_rate, f(0.0));
    assert_eq!(b.burst_factor, f(1000.0));
    assert_eq!(b.duration, Span::from_secs(4));
    assert_eq!(b.csv_path.as_deref(), Some("out.csv"));
    assert_eq!(b.progress_fn, Some("formatter"));
    assert_eq!(b.producer, Some("producer"));
    assert_eq!(b.consumer, Some("consumer"));
    assert_eq!(
        b.snapshots(),
        DualSnapshotConfig { to_file: true, show_progress: false, show_ramp_progress: false }
    );
    assert_eq!(b.duration(Span::from_millis(5)).duration, Span::from_millis(5));
}

#[test]
fn producers_start_at_the_rate_of_the_ramp() {
    let b = ProducerConsumerBenchmark::new().rate(f(200.0)).ramp_start_rate(f(5.0));
    assert_eq!(b.start_rate(), f(200.0));
    assert_eq!(b.ramp_up(Span::from_secs(1)).start_rate(), f(5.0));
    let b = AsyncTaskBenchmark::new().rate(f(200.0)).ramp_start_rate(f(5.0));
    assert_eq!(b.start_rate(), f(200.0));
    assert_eq!(b.ramp_up(Span::from_secs(1)).start_rate(), f(5.0));
}

#[test]
fn a_producer_consumer_run_goes_through_its_steps() {
    let b = ProducerConsumerBenchmark::new()
        .producers(2)
        .consumers(3)
        .rate(f(200.0))
        .ramp_up(Span::from_secs(2))
        .duration_secs(4);
    assert_eq!(
        b.run_plan(),
        vec![
            RunStep::Spawn(Role::Producers, 2),
            RunStep::Spawn(Role::Consumers, 3),
            RunStep::SpawnSnapshots,
            RunStep::Ramp { from: f(0.0), to: f(200.0), over: Span::from_secs(2) },
            RunStep::EndRamp,
            RunStep::Sleep(Span::from_secs(4)),
            RunStep::Stop(Signal::Running),
            RunStep::Join(Role::Producers),
            RunStep::Join(Role::Consumers),
            RunStep::JoinSnapshots,
        ]
    );
    let quiet = ProducerConsumerBenchmark::new().progress(false);
    assert_eq!(
        quiet.run_plan(),
        vec![
            RunStep::Spawn(Role::Producers, 1),
            RunStep::Spawn(Role::Consumers, 1),
            RunStep::Sleep(Span::from_secs(10)),
            RunStep::Stop(Signal::Running),
            RunStep::Join(Role::Producers),
            RunStep::Join(Role::Consumers),
        ]
    );
}

#[test]
fn async_task_defaults() {
    let b = AsyncTaskBenchmark::new();
    assert_eq!((b.submit_workers, b.poll_workers), (2, 2));
    assert_eq!(b.rate, f(500.0));
    assert_eq!(b.duration, Span::from_secs(10));
    assert_eq!(b.drain_timeout, Some(Span::from_secs(30)));
    assert_eq!(b.burst_factor, f(0.1));
    assert!(b.show_progress);
    assert_eq!(AsyncTaskBenchmark::default().poll_workers, 2);
}

#[test]
fn async_task_settings_are_kept() {
    let b = AsyncTaskBenchmark::new()
        .submit_workers(0)
        .poll_workers(0)
        .rate(f(70.0))
        .burst_factor(f(0.0))
        .show_ramp_progress(false)
        .duration(Span::from_millis(900))
        .drain_timeout_secs(3)
        .csv("tasks.csv".to_string())
        .progress(false)
        .on_progress(1u8)
        .submitter(2u8)
        .poller(3u8);
    assert_eq!((b.submit_workers, b.poll_workers), (1, 1));
    assert_eq!(b.rate, f(70.0));
    assert_eq!(b.burst_factor, f(0.001));
    assert_eq!(b.duration, Span::from_millis(900));
    assert_eq!(b.drain_timeout, Some(Span::from_secs(3)));
    assert_eq!(b.csv_path.as_deref(), Some("tasks.csv"));
    assert_eq!((b.progress_fn, b.submitter, b.poller), (Some(1), Some(2), Some(3)));
    assert!(b.snapshots().is_active());
    let b = b.submit_workers(5).poll_workers(6).duration_secs(8).drain_timeout(None);
    assert_eq!((b.submit_workers, b.poll_workers), (5, 6));
    assert_eq!(b.duration, Span::from_secs(8));
    assert_eq!(b.drain_timeout, None);
}

#[test]
fn an_async_task_run_drains_before_the_pollers_stop() {
    let b = AsyncTaskBenchmark::new().ramp_up(Span::from_secs(1)).duration_secs(4);
    assert_eq!(
        b.run_plan(),
        vec![
            RunStep::Spawn(Role::Submitters, 2),
            RunStep::Spawn(Role::Pollers, 2),
            RunStep::SpawnSnapshots,
            RunStep::Ramp { from: f(0.0), to: f(500.0), over: Span::from_secs(1) },
            RunStep::EndRamp,
            RunStep::Sleep(Span::from_secs(4)),
            RunStep::Stop(Signal::Submitting),
            RunStep::Join(Role::Submitters),
            RunStep::Drain(Span::from_secs(30)),
            RunStep::Stop(Signal::Running),
            RunStep::Join(Role::Pollers),
            RunStep::JoinSnapshots,
        ]
    );
    let b = AsyncTaskBenchmark::new().drain_timeout(None).progress(false);
    assert_eq!(
        b.run_plan(),
        vec![
            RunStep::Spawn(Role::Submitters, 2),
            RunStep::Spawn(Role::Pollers, 2),
            RunStep::Sleep(Span::from_secs(10)),
            RunStep::Stop(Signal::Submitting),
            RunStep::Join(Role::Submitters),
            RunStep::Stop(Signal::Running),
            RunStep::Join(Role::Pollers),
        ]
    );
}

fn shown(list: Vec<SnapshotOutput<String>>) -> Vec<String> {
    list.into_iter()
        .map(|o| match o {
            SnapshotOutput::File(line) => format!("file {line}"),
            SnapshotOutput::Stdout(line) => format!("stdout {line}"),
            SnapshotOutput::Progress(line) => format!("progress {line}"),
        })
        .collect()
}

#[test]
fn dual_snapshots_mark_the_ramp() {
    let all = DualSnapshotConfig { to_file: true, show_progress: true, show_ramp_progress: true };
    assert!(all.is_active());
    assert_eq!(shown(all.opening("h".to_string())), vec!["file h"]);
    let line = Some("p".to_string());
    assert_eq!(
        shown(all.snapshot("r".to_string(), line.clone(), false)),
        vec!["file r", "progress p"]
    );
    assert_eq!(
        shown(all.snapshot("r".to_string(), line.clone(), true)),
        vec!["file r", "progress [RAMP] p"]
    );
    assert_eq!(shown(all.snapshot("r".to_string(), None, false)), vec!["file r"]);
    let hidden = DualSnapshotConfig { show_ramp_progress: false, ..all };
    assert!(!hidden.shows_progress(true));
    assert_eq!(shown(hidden.snapshot("r".to_string(), line.clone(), true)), vec!["file r"]);
    let none = DualSnapshotConfig { to_file: false, show_progress: false, ..all };
    assert!(!none.is_active());
    assert!(shown(none.opening("h".to_string())).is_empty());
    assert!(shown(none.snapshot("r".to_string(), line, false)).is_empty());
}

#[test]
fn producer_consumer_rows_and_lines() {
    let header = producer_consumer::csv_header();
    assert_eq!(
        header,
        "timestamp,produced,consumed,in_flight,produce_rate,consume_rate,p50_ms,p95_ms,p99_ms"
    );
    let text = producer_consumer::RowText {
        produce_rate: "10.00".to_string(),
        consume_rate: "9.50".to_string(),
        p50_ms: "0.100".to_string(),
        p95_ms: "0.200".to_string(),
        p99_ms: "0.300".to_string(),
    };
    let (produced, consumed) = (snapshot(120, 0, 5), snapshot(0, 100, 0));
    let row = producer_consumer::csv_row(&produced, &consumed, &text);
    assert_eq!(row, "1700,120,100,20,10.00,9.50,0.100,0.200,0.300");
    assert_eq!(row.split(',').count(), header.split(',').count());
    assert_eq!(
        producer_consumer::progress_line(&produced, &consumed, "0.10"),
        "  120 produced | 100 consumed | 20 in-flight | p50=0.10ms"
    );
    assert_eq!(
        producer_consumer::progress_line(&snapshot(1, 0, 0), &snapshot(0, 3, 0), "0.00"),
        "  1 produced | 3 consumed | 0 in-flight | p50=0.00ms"
    );
}

#[test]
fn async_task_rows_and_lines() {
    let header = async_task::csv_header();
    assert_eq!(
        header,
        "timestamp,submitted,completed,in_flight,throughput,p50_ms,p95_ms,p99_ms"
    );
    let text = async_task::RowText {
        throughput: "9.50".to_string(),
        p50_ms: "0.100".to_string(),
        p95_ms: "0.200".to_string(),
        p99_ms: "0.300".to_string(),
    };
    let (submitted, completed) = (snapshot(120, 0, 5), snapshot(0, 100, 0));
    let row = async_task::csv_row(&submitted, &completed, &text);
    assert_eq!(row, "1700,120,100,20,9.50,0.100,0.200,0.300");
    assert_eq!(row.split(',').count(), header.split(',').count());
    assert_eq!(
        async_task::progress_line(&submitted, &completed, "0.1"),
        "  120 submitted | 100 completed | 20 in-flight | p50=0.1ms"
    );
}

#[test]
fn producer_consumer_results_count_attempts() {
    let errors = vec![ErrorCount { reason: "full".to_string(), count: 5 }];
    let r = ProducerConsumerBenchmark::new().results(
        &snapshot(120, 0, 5),
        &snapshot(0, 100, 0),
        errors,
    );
    assert_eq!(r.produced.total_ops, 125);
    assert_eq!(r.produced.successes, 120);
    assert_eq!(r.produced.errors, 5);
    assert_eq!(r.produced.latency_samples, 0);
    assert_eq!(r.produced.latency_p99_ns, 0);
    assert_eq!(r.consumed.total_ops, 100);
    assert_eq!(r.consumed.successes, 100);
    assert_eq!(r.consumed.latency_p99_ns, 99);
    assert!(r.consumed.error_breakdown.is_empty());
    assert_eq!(r.in_flight(), 20);
    assert_eq!(r.target_rate, f(1000.0));
}

#[test]
fn async_task_results_count_submissions() {
    let submit_errors = vec![ErrorCount { reason: "submit failed".to_string(), count: 5 }];
    let poll_errors = vec![ErrorCount { reason: "lost".to_string(), count: 2 }];
    let r = AsyncTaskBenchmark::new().results(
        &snapshot(120, 0, 5),
        &snapshot(0, 100, 2),
        submit_errors,
        poll_errors,
    );
    // Each role breaks down its own errors.
    assert_eq!(r.submitted.error_breakdown.len(), 1);
    assert_eq!(r.submitted.error_breakdown[0].reason, "submit failed");
    assert_eq!(r.submitted.error_breakdown[0].count, r.submitted.errors);
    assert_eq!(r.completed.error_breakdown.len(), 1);
    assert_eq!(r.completed.error_breakdown[0].reason, "lost");
    assert_eq!(r.completed.error_breakdown[0].count, r.completed.errors);
    assert_eq!(r.submitted.total_ops, 120);
    assert_eq!(r.submitted.successes, 115);
    assert_eq!(r.submitted.errors, 5);
    assert_eq!(r.submitted.latency_samples, 0);
    assert_eq!(r.completed.total_ops, 100);
    assert_eq!(r.completed.errors, 2);
    assert_eq!(r.completed.latency_p50_ns, 50);
    assert_eq!(r.in_flight(), 15);
    assert_eq!(r.target_rate, f(500.0));
}
