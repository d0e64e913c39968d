use lightbench::metrics::errors::ranking;
use lightbench::{ErrorCount, ErrorCounter, Float, SequenceTracker, SnapshotText, StatsSnapshot};

fn f(x: f64) -> Float {
    Float::from_bits(x.to_bits())
}

fn errors(list: &[(&str, u64)]) -> Vec<ErrorCount> {
    list.iter()
        .map(|(reason, count)| ErrorCount { reason: reason.to_string(), count: *count })
        .collect()
}

#[test]
fn errors_are_grouped_by_reason() {
    let mut counter = ErrorCounter::new();
    counter.record("timeout");
    counter.record("connection refused");
    counter.record("timeout");
    assert_eq!(counter.count("timeout"), 2);
    assert_eq!(counter.count("connection refused"), 1);
    assert_eq!(counter.count("other"), 0);
}

#[test]
fn taking_the_counts_empties_the_counter() {
    let mut counter = ErrorCounter::default();
    counter.record("timeout");
    counter.record("refused");
    counter.record("timeout");
    let taken = counter.take();
    assert_eq!(taken.len(), 2);
    for error in &taken {
        let expected = if error.reason == "timeout" { 2 } else { 1 };
        assert_eq!(error.count, expected);
    }
    assert_eq!(counter.count("timeout"), 0);
    assert!(counter.take().is_empty());
    counter.record("timeout");
    assert_eq!(counter.count("timeout"), 1);
}

#[test]
fn the_breakdown_lists_frequent_reasons_first() {
    let lines = ErrorCounter::summary_lines(&errors(&[("rare", 1), ("common", 30), ("some", 4)]));
    assert_eq!(lines, vec!["  Errors:", "    common: 30", "    some: 4", "    rare: 1"]);
}

#[test]
fn the_breakdown_is_empty_without_errors() {
    assert!(ErrorCounter::summary_lines(&Vec::new()).is_empty());
}

#[test]
fn equally_frequent_reasons_keep_their_order() {
    assert_eq!(ranking(&errors(&[("a", 2), ("b", 5), ("c", 2), ("d", 5)])), vec![1, 3, 0, 2]);
    assert_eq!(ranking(&Vec::new()), Vec::<usize>::new());
}

#[test]
fn duplicates_are_detected() {
    let mut tracker = SequenceTracker::new();
    assert!(tracker.record(5));
    assert!(tracker.record(7));
    assert!(!tracker.record(5));
    assert!(!tracker.record(5));
    assert_eq!(tracker.duplicate_count(), 2);
}

#[test]
fn gaps_are_counted_within_the_received_range() {
    let mut tracker = SequenceTracker::new();
    for seq in [10, 3, 4, 8, 3] {
        tracker.record(seq);
    }
    // 5, 6, 7 and 9
    assert_eq!(tracker.gap_count(), 4);
    assert_eq!(tracker.head_loss(), 3);
    assert_eq!(tracker.duplicate_count(), 1);
    // received, missing and lost at the head make up 0..=10
    assert_eq!(4 + tracker.gap_count() + tracker.head_loss(), 11);
}

#[test]
fn a_new_tracker_has_no_losses() {
    let tracker = SequenceTracker::default();
    assert_eq!(tracker.gap_count(), 0);
    assert_eq!(tracker.head_loss(), 0);
    assert_eq!(tracker.duplicate_count(), 0);
}

#[test]
fn batches_count_new_numbers() {
    let mut tracker = SequenceTracker::new();
    assert_eq!(tracker.record_batch(&[0, 1, 1, 2]), 3);
    assert_eq!(tracker.record_batch(&[2, 3]), 1);
    assert_eq!(tracker.record_batch(&[]), 0);
    assert_eq!(tracker.duplicate_count(), 2);
    assert_eq!(tracker.gap_count(), 0);
    assert_eq!(tracker.head_loss(), 0);
}

#[test]
fn the_widest_range_of_numbers_is_counted() {
    let mut tracker = SequenceTracker::new();
    tracker.record(0);
    tracker.record(u64::MAX);
    assert_eq!(tracker.gap_count(), u64::MAX - 1);
    assert_eq!(tracker.head_loss(), 0);
}

fn snapshot() -> StatsSnapshot {
    StatsSnapshot {
        timestamp: 1700000000,
        sent_count: 1000,
        received_count: 990,
        error_count: 10,
        total_throughput: f(99.5),
        interval_throughput: f(101.25),
        latency_ns_p25: 1,
        latency_ns_p50: 20,
        latency_ns_p75: 300,
        latency_ns_p95: 4000,
        latency_ns_p99: 50000,
        latency_ns_min: 0,
        latency_ns_max: 18446744073709551615,
        latency_ns_mean: f(42.5),
        latency_ns_stddev: f(7.25),
        latency_sample_count: 990,
        duplicate_count: 2,
        gap_count: 3,
        head_loss: 4,
    }
}

#[test]
fn the_header_names_nineteen_columns() {
    let header = StatsSnapshot::csv_header();
    assert_eq!(
        header,
        "timestamp,sent_count,received_count,error_count,total_throughput,interval_throughput,\
         latency_ns_p25,latency_ns_p50,latency_ns_p75,latency_ns_p95,latency_ns_p99,\
         latency_ns_min,latency_ns_max,latency_ns_mean,latency_ns_stddev,latency_sample_count,\
         duplicate_count,gap_count,head_loss"
    );
    assert_eq!(header.split(',').count(), 19);
}

#[test]
fn a_row_has_the_columns_of_the_header() {
    let text = SnapshotText {
        total_throughput: "99.50".to_string(),
        interval_throughput: "101.25".to_string(),
        latency_ns_mean: "42.50".to_string(),
        latency_ns_stddev: "7.25".to_string(),
    };
    let row = snapshot().to_csv_row(&text);
    assert_eq!(
        row,
        "1700000000,1000,990,10,99.50,101.25,1,20,300,4000,50000,0,18446744073709551615,\
         42.50,7.25,990,2,3,4"
    );
    assert_eq!(row.split(',').count(), StatsSnapshot::csv_header().split(',').count());
}
