use lightbench::time_sync::{
    base, latency_at, latency_ns, now_unix_ns_estimate, timestamp_at, unix_ns_or_zero,
};
use std::time::{Duration, Instant};

#[test]
fn monotonic_increase() {
    let base = base();
    let a = now_unix_ns_estimate(&base);
    let b = now_unix_ns_estimate(&base);
    assert!(b >= a);
}

#[test]
fn reasonable_timestamp() {
    let ts = now_unix_ns_estimate(&base());
    // Should be after year 2020 (in nanoseconds)
    let year_2020_ns: u64 = 1577836800_000_000_000;
    assert!(ts > year_2020_ns);
}

#[test]
fn latency_calculation() {
    let base = base();
    let start = now_unix_ns_estimate(&base);
    let clock = Instant::now();
    while clock.elapsed() < Duration::from_millis(10) {}
    let lat = latency_ns(&base, start);
    // Should be at least 10ms
    assert!(lat >= 10_000_000);
}

#[test]
fn estimate_starts_at_the_wall_clock() {
    let base = base();
    let ts = now_unix_ns_estimate(&base) as u128;
    assert!(ts >= base.unix_ns);
    assert!(ts - base.unix_ns < 1_000_000_000);
}

#[test]
fn timestamps_add_the_monotonic_time() {
    assert_eq!(timestamp_at(1_700_000_000_000_000_000, 0), 1_700_000_000_000_000_000);
    assert_eq!(timestamp_at(1_700_000_000_000_000_000, 5_000), 1_700_000_000_000_005_000);
    assert!(timestamp_at(10, 7) <= timestamp_at(10, 8));
}

#[test]
fn timestamps_truncate_far_in_the_future() {
    assert_eq!(timestamp_at(u64::MAX as u128, 1), 0);
    assert_eq!(timestamp_at(u64::MAX as u128, 43), 42);
    assert_eq!(timestamp_at(u128::MAX, 1), u64::MAX);
}

#[test]
fn latency_is_never_negative() {
    assert_eq!(latency_at(100, 250), 150);
    assert_eq!(latency_at(250, 250), 0);
    assert_eq!(latency_at(251, 250), 0);
    assert_eq!(latency_ns(&base(), u64::MAX), 0);
}

#[test]
fn a_clock_before_the_epoch_counts_as_the_epoch() {
    assert_eq!(unix_ns_or_zero(None), 0);
    assert_eq!(unix_ns_or_zero(Some(17)), 17);
}
