use lightbench::patterns::work::{
    AsyncTaskResultsText, BenchmarkResultsText, ProducerConsumerResultsText, SummaryText,
};
use lightbench::{
    AsyncTaskResults, BenchmarkResults, BenchmarkSummary, ErrorCount, Float, ProducerConsumerResults,
    Span, StatsSnapshot,
};

fn f(x: f64) -> Float {
    Float::from_bits(x.to_bits())
}

fn snapshot(sent: u64, received: u64, failed: u64) -> StatsSnapshot {
    StatsSnapshot {
        timestamp: 1,
        sent_count: sent,
        received_count: received,
        error_count: failed,
        total_throughput: f(12.5),
        interval_throughput: f(13.5),
        latency_ns_p25: 25,
        latency_ns_p50: 50,
        latency_ns_p75: 75,
        latency_ns_p95: 95,
        latency_ns_p99: 99,
        latency_ns_min: 1,
        latency_ns_max: 100,
        latency_ns_mean: f(51.0),
        latency_ns_stddev: f(3.0),
        latency_sample_count: received,
        duplicate_count: 0,
        gap_count: 0,
        head_loss: 0,
    }
}

fn text() -> SummaryText {
    SummaryText {
        throughput: "12.50".to_string(),
        success_rate: "97.0".to_string(),
        latency_min: "0.001".to_string(),
        latency_p50: "0.050".to_string(),
        latency_p95: "0.095".to_string(),
        latency_p99: "0.099".to_string(),
        latency_max: "0.100".to_string(),
        latency_mean: "0.051".to_string(),
        latency_stddev: "0.003".to_string(),
    }
}

#[test]
fn summaries_with_latency() {
    let errors = vec![
        ErrorCount { reason: "refused".to_string(), count: 1 },
        ErrorCount { reason: "timeout".to_string(), count: 2 },
    ];
    let summary = BenchmarkSummary::from_snapshot(&snapshot(100, 97, 3), errors);
    assert_eq!(
        summary.print_lines("Request", &text()),
        vec![
            "  Request",
            "    Throughput:  12.50 ops/s",
            "    Operations:  100 total, 97 ok, 3 errors (97.0% success)",
            "  Errors:",
            "    timeout: 2",
            "    refused: 1",
            "    Latency (ms):",
            "      min=0.001  p50=0.050  p95=0.095  p99=0.099  max=0.100",
            "      mean=0.051  stddev=0.003",
        ]
    );
}

#[test]
fn summaries_without_latency() {
    let summary = BenchmarkSummary::from_snapshot_send_only(&snapshot(100, 0, 3), vec![]);
    assert_eq!(
        summary.print_lines("Submit", &text()),
        vec![
            "  Submit",
            "    Throughput:  12.50 ops/s",
            "    Operations:  100 total, 97 ok, 3 errors (97.0% success)",
        ]
    );
}

#[test]
fn summaries_of_each_role() {
    let snap = snapshot(3, 10, 5);
    let send = BenchmarkSummary::from_snapshot_send_only(&snap, vec![]);
    assert_eq!((send.total_ops, send.successes, send.errors), (3, 0, 5));
    let produced = BenchmarkSummary::from_snapshot_produced(&snap, vec![]);
    assert_eq!((produced.total_ops, produced.successes, produced.errors), (8, 3, 5));
    let received = BenchmarkSummary::from_snapshot_recv_only(&snap, vec![]);
    assert_eq!((received.total_ops, received.successes, received.errors), (10, 10, 5));
    assert_eq!(received.throughput, f(12.5));
    assert_eq!(received.latency_stddev_ns, f(3.0));
    let most = BenchmarkSummary::from_snapshot_produced(&snapshot(u64::MAX, 0, 5), vec![]);
    assert_eq!(most.total_ops, u64::MAX);
}

#[test]
fn request_report() {
    let results = |rate: f64, csv_path: Option<String>| BenchmarkResults {
        summary: BenchmarkSummary::from_snapshot_send_only(&snapshot(100, 0, 3), vec![]),
        target_rate: f(rate),
        workers: 4,
        duration: Span::from_secs(10),
        csv_path,
    };
    let text = BenchmarkResultsText {
        duration: "10.0".to_string(),
        target_rate: "1000".to_string(),
        summary: text(),
    };
    assert_eq!(
        results(1000.0, Some("results.csv".to_string())).summary_lines(&text),
        vec![
            "",
            "BENCHMARK RESULTS",
            "  Duration: 10.0s | Workers: 4 | Target: 1000 req/s",
            "",
            "  Request",
            "    Throughput:  12.50 ops/s",
            "    Operations:  100 total, 97 ok, 3 errors (97.0% success)",
            "",
            "  CSV: results.csv",
            "",
        ]
    );
    for rate in [0.0, -1.0] {
        let lines = results(rate, None).summary_lines(&text);
        assert_eq!(lines[2], "  Duration: 10.0s | Workers: 4 | Target: unlimited req/s");
        assert_eq!(lines.len(), 8);
        assert_eq!(lines[7], "");
    }
}

#[test]
fn producer_consumer_report() {
    let results = ProducerConsumerResults {
        produced: BenchmarkSummary::from_snapshot_produced(&snapshot(97, 0, 3), vec![]),
        consumed: BenchmarkSummary::from_snapshot_recv_only(&snapshot(0, 90, 0), vec![]),
        producers: 2,
        consumers: 3,
        target_rate: f(1000.0),
        duration: Span::from_secs(10),
        csv_path: None,
    };
    let text = ProducerConsumerResultsText {
        duration: "10.0".to_string(),
        target_rate: "1000".to_string(),
        produced: text(),
        consumed: text(),
    };
    assert_eq!(
        results.summary_lines(&text),
        vec![
            "",
            "PRODUCER/CONSUMER RESULTS",
            "  Duration: 10.0s | Producers: 2 | Consumers: 3 | Target: 1000 msg/s",
            "  In-flight: 7",
            "",
            "  Produced",
            "    Throughput:  12.50 ops/s",
            "    Operations:  100 total, 97 ok, 3 errors (97.0% success)",
            "",
            "  Consumed (queue latency)",
            "    Throughput:  12.50 ops/s",
            "    Operations:  90 total, 90 ok, 0 errors (97.0% success)",
            "    Latency (ms):",
            "      min=0.001  p50=0.050  p95=0.095  p99=0.099  max=0.100",
            "      mean=0.051  stddev=0.003",
            "",
        ]
    );
}

#[test]
fn async_task_report() {
    let results = AsyncTaskResults {
        submitted: BenchmarkSummary::from_snapshot_send_only(&snapshot(100, 0, 3), vec![]),
        completed: BenchmarkSummary::from_snapshot_recv_only(&snapshot(0, 90, 0), vec![]),
        submit_workers: 2,
        poll_workers: 3,
        target_rate: f(500.0),
        duration: Span::from_secs(10),
        csv_path: Some("tasks.csv".to_string()),
    };
    let text = AsyncTaskResultsText {
        duration: "10.0".to_string(),
        target_rate: "500".to_string(),
        submitted: text(),
        completed: text(),
    };
    assert_eq!(
        results.summary_lines(&text),
        vec![
            "",
            "ASYNC TASK RESULTS",
            "  Duration: 10.0s | Submit: 2 workers @ 500/s | Poll: 3 workers",
            "  In-flight: 7",
            "",
            "  Submit",
            "    Throughput:  12.50 ops/s",
            "    Operations:  100 total, 97 ok, 3 errors (97.0% success)",
            "",
            "  Completed (task latency)",
            "    Throughput:  12.50 ops/s",
            "    Operations:  90 total, 90 ok, 0 errors (97.0% success)",
            "    Latency (ms):",
            "      min=0.001  p50=0.050  p95=0.095  p99=0.099  max=0.100",
            "      mean=0.051  stddev=0.003",
            "",
            "  CSV: tasks.csv",
            "",
        ]
    );
}
