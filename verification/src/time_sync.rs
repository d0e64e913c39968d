//! Fast timestamps.
//!
//! A [`Base`] pairs one reading of the wall clock with one of the monotonic clock. Later
//! timestamps add the monotonic time passed since then, so they do not follow corrections
//! of the wall clock.

use std::time::{Duration, Instant, SystemTime, SystemTimeError};
use vstd::prelude::*;

verus! {

/// `std::time::Instant`, carried through unread.
#[verifier::external_type_specification]
#[verifier::external_body]
pub struct ExInstant(Instant);

/// `std::time::SystemTime`, carried through unread.
#[verifier::external_type_specification]
#[verifier::external_body]
pub struct ExSystemTime(SystemTime);

/// `std::time::SystemTimeError`, carried through unread.
#[verifier::external_type_specification]
#[verifier::external_body]
pub struct ExSystemTimeError(SystemTimeError);

/// [`Instant::now`] reads the monotonic clock; nothing is claimed of the reading.
pub assume_specification[ Instant::now ]() -> Instant;

/// [`Instant::elapsed`] reads the monotonic clock again; nothing is claimed of the difference.
pub assume_specification[ Instant::elapsed ](instant: &Instant) -> Duration;

/// [`SystemTime::now`] reads the wall clock; nothing is claimed of the reading.
pub assume_specification[ SystemTime::now ]() -> SystemTime;

/// [`SystemTime::duration_since`] is the distance from an earlier time, or an error where
/// that time is later; nothing is claimed of which it is.
pub assume_specification[ SystemTime::duration_since ](
    time: &SystemTime,
    earlier: SystemTime,
) -> Result<Duration, SystemTimeError>;

/// [`Duration::as_nanos`] is the whole length in nanoseconds. A duration is less than 2^64
/// seconds, so the number stays below 2^64 * 10^9.
pub assume_specification[ Duration::as_nanos ](duration: &Duration) -> (nanos: u128)
    ensures
        nanos < 0x1_0000_0000_0000_0000 * 1_000_000_000,
;

/// `std::time::UNIX_EPOCH`; nothing is claimed of it.
#[verifier::external_body]
fn unix_epoch() -> (epoch: SystemTime) {
    std::time::UNIX_EPOCH
}

/// One reading of both clocks.
pub struct Base {
    /// The monotonic clock.
    pub instant: Instant,
    /// The wall clock, in nanoseconds since the UNIX epoch.
    pub unix_ns: u128,
}

/// The nanoseconds of a wall clock reading: zero for a clock set before the epoch.
pub fn unix_ns_or_zero(since_epoch: Option<u128>) -> (r: u128)
    ensures
        r == (match since_epoch {
            Some(nanos) => nanos,
            None => 0,
        }),
{
    match since_epoch {
        Some(nanos) => nanos,
        None => 0,
    }
}

/// Whether `unix_ns` is what a distance from the epoch comes to: its nanoseconds, or zero
/// for a clock set before the epoch.
pub open spec fn comes_to(since_epoch: Result<Duration, SystemTimeError>, unix_ns: u128) -> bool {
    match since_epoch {
        Ok(duration) => call_ensures(Duration::as_nanos, (&duration,), unix_ns),
        Err(_) => unix_ns == 0,
    }
}

/// Whether `since_epoch` is a distance that the wall clock can give from the UNIX epoch.
pub closed spec fn wall_clock_gives(since_epoch: Result<Duration, SystemTimeError>) -> bool {
    exists|now: SystemTime, epoch: SystemTime|
        call_ensures(SystemTime::now, (), now) && call_ensures(unix_epoch, (), epoch)
            && #[trigger] call_ensures(SystemTime::duration_since, (&now, epoch), since_epoch)
}

/// Reads both clocks. One base serves a whole process.
///
/// The instant is a reading of the monotonic clock, and the nanoseconds are those of a
/// reading of the wall clock.
pub fn base() -> (r: Base)
    ensures
        call_ensures(Instant::now, (), r.instant),
        exists|since_epoch: Result<Duration, SystemTimeError>| #[trigger]
            wall_clock_gives(since_epoch) && comes_to(since_epoch, r.unix_ns),
        r.unix_ns < 0x1_0000_0000_0000_0000 * 1_000_000_000,
{
    let now: SystemTime = SystemTime::now();
    let epoch: SystemTime = unix_epoch();
    let since_epoch: Result<Duration, SystemTimeError> = now.duration_since(epoch);
    assert(wall_clock_gives(since_epoch));
    let nanos: Option<u128> = match &since_epoch {
        Ok(duration) => Some(duration.as_nanos()),
        Err(_) => None,
    };
    let unix_ns: u128 = unix_ns_or_zero(nanos);
    assert(comes_to(since_epoch, unix_ns));
    Base { instant: Instant::now(), unix_ns }
}

/// The timestamp `delta` nanoseconds after the base: 64 bits of nanoseconds, which wrap
/// around in the year 2554.
pub open spec fn timestamp(unix_ns: u128, delta: u128) -> int {
    let sum = unix_ns + delta;
    (if sum > u128::MAX {
        u128::MAX as int
    } else {
        sum
    }) % 0x1_0000_0000_0000_0000
}

/// The timestamp `delta` nanoseconds after the base.
pub fn timestamp_at(unix_ns: u128, delta: u128) -> (r: u64)
    ensures
        r == timestamp(unix_ns, delta),
{
    let ns: u128 = unix_ns.saturating_add(delta);
    assert(ns as u64 == ns % 0x1_0000_0000_0000_0000u128) by (bit_vector);
    #[verifier::truncate]
    (ns as u64)
}

/// Whether `delta` is a time in nanoseconds that the monotonic clock can show since `instant`.
pub open spec fn passes_since(instant: Instant, delta: u128) -> bool {
    exists|passed: Duration| #[trigger]
        call_ensures(Instant::elapsed, (&instant,), passed) && call_ensures(
            Duration::as_nanos,
            (&passed,),
            delta,
        )
}

/// Estimate of the present UNIX time in nanoseconds: the timestamp at the monotonic time
/// passed since the base was made.
pub fn now_unix_ns_estimate(base: &Base) -> (r: u64)
    ensures
        exists|delta: u128| #[trigger]
            passes_since(base.instant, delta) && r == timestamp(base.unix_ns, delta),
{
    let passed: Duration = base.instant.elapsed();
    let delta: u128 = passed.as_nanos();
    assert(passes_since(base.instant, delta));
    timestamp_at(base.unix_ns, delta)
}

/// The latency of a message sent at one timestamp and received at another; zero where the
/// clocks disagree about the order.
pub open spec fn latency(sent_timestamp_ns: u64, now_ns: u64) -> int {
    if now_ns >= sent_timestamp_ns {
        now_ns - sent_timestamp_ns
    } else {
        0
    }
}

/// The latency of a message sent at one timestamp and received at another.
pub fn latency_at(sent_timestamp_ns: u64, now_ns: u64) -> (r: u64)
    ensures
        r == latency(sent_timestamp_ns, now_ns),
{
    now_ns.saturating_sub(sent_timestamp_ns)
}

/// Nanoseconds from a timestamp to now; zero where that timestamp is later.
pub fn latency_ns(base: &Base, sent_timestamp_ns: u64) -> (r: u64)
    ensures
        exists|delta: u128| #[trigger]
            passes_since(base.instant, delta) && r == latency(
                sent_timestamp_ns,
                timestamp(base.unix_ns, delta) as u64,
            ),
{
    latency_at(sent_timestamp_ns, now_unix_ns_estimate(base))
}

/// Timestamps from one base never run backwards, and their difference is the monotonic time
/// between them, as long as they fit in 64 bits.
pub proof fn law_timestamps_are_monotonic(unix_ns: u128, first: u128, second: u128)
    requires
        first <= second,
        unix_ns + second <= u64::MAX,
    ensures
        timestamp(unix_ns, first) <= timestamp(unix_ns, second),
        latency(timestamp(unix_ns, first) as u64, timestamp(unix_ns, second) as u64) == second
            - first,
        latency(timestamp(unix_ns, second) as u64, timestamp(unix_ns, first) as u64) == 0,
{
}

/// A timestamp is the base and the time passed since then, modulo 2^64; there is nothing else
/// in it. A latency is the time from one timestamp to the other, or zero.
pub proof fn law_timestamp_is_base_and_delta(
    unix_ns: u128,
    delta: u128,
    sent_ns: u64,
    now_ns: u64,
    since_epoch: Option<u128>,
    r: u64,
    nanos: u128,
)
    ensures
        call_ensures(timestamp_at, (unix_ns, delta), r) ==> {
            &&& unix_ns + delta <= u64::MAX ==> r == unix_ns + delta
            &&& unix_ns + delta <= u128::MAX ==> r == (unix_ns + delta) % 0x1_0000_0000_0000_0000
        },
        call_ensures(latency_at, (sent_ns, now_ns), r) ==> {
            &&& now_ns >= sent_ns ==> sent_ns + r == now_ns
            &&& now_ns < sent_ns ==> r == 0
        },
        call_ensures(unix_ns_or_zero, (since_epoch,), nanos) ==> match since_epoch {
            Some(n) => nanos == n,
            None => nanos == 0,
        },
{
}

/// The base holds a reading of the monotonic clock, and the nanoseconds of a reading of the wall
/// clock since the epoch; zero where that clock is set before it.
proof fn law_base_reads_both_clocks(r: Base)
    requires
        call_ensures(base, (), r),
    ensures
        call_ensures(Instant::now, (), r.instant),
        exists|now: SystemTime, epoch: SystemTime, since: Result<Duration, SystemTimeError>|
            call_ensures(SystemTime::now, (), now) && call_ensures(unix_epoch, (), epoch)
                && #[trigger] call_ensures(SystemTime::duration_since, (&now, epoch), since) && (
            match since {
                Ok(duration) => call_ensures(Duration::as_nanos, (&duration,), r.unix_ns),
                Err(_) => r.unix_ns == 0,
            }),
{
    let since = choose|since: Result<Duration, SystemTimeError>| #[trigger]
        wall_clock_gives(since) && comes_to(since, r.unix_ns);
}

/// The present is the base and the whole time that the monotonic clock shows since then, and a
/// latency goes up to that present.
pub proof fn law_present_reads_the_clock(base: Base, sent_ns: u64, now: u64, latency: u64)
    requires
        call_ensures(now_unix_ns_estimate, (&base,), now),
        call_ensures(latency_ns, (&base, sent_ns), latency),
    ensures
        exists|passed: Duration, delta: u128|
            #[trigger] call_ensures(Instant::elapsed, (&base.instant,), passed)
                && #[trigger] call_ensures(Duration::as_nanos, (&passed,), delta) && (base.unix_ns
                + delta <= u128::MAX ==> now == (base.unix_ns + delta) % 0x1_0000_0000_0000_0000),
        exists|passed: Duration, delta: u128|
            #[trigger] call_ensures(Instant::elapsed, (&base.instant,), passed)
                && #[trigger] call_ensures(Duration::as_nanos, (&passed,), delta) && (base.unix_ns
                + delta <= u128::MAX ==> {
                let then = (base.unix_ns + delta) % 0x1_0000_0000_0000_0000;
                latency == if then >= sent_ns {
                    then - sent_ns
                } else {
                    0
                }
            }),
{
    let delta = choose|delta: u128| #[trigger]
        passes_since(base.instant, delta) && now == timestamp(base.unix_ns, delta);
    let passed = choose|passed: Duration| #[trigger]
        call_ensures(Instant::elapsed, (&base.instant,), passed) && call_ensures(
            Duration::as_nanos,
            (&passed,),
            delta,
        );
    assert(call_ensures(Duration::as_nanos, (&passed,), delta));
    let delta2 = choose|delta: u128| #[trigger]
        passes_since(base.instant, delta) && latency == crate::time_sync::latency(
            sent_ns,
            timestamp(base.unix_ns, delta) as u64,
        );
    let passed2 = choose|passed: Duration| #[trigger]
        call_ensures(Instant::elapsed, (&base.instant,), passed) && call_ensures(
            Duration::as_nanos,
            (&passed,),
            delta2,
        );
    assert(call_ensures(Duration::as_nanos, (&passed2,), delta2));
}

} // verus!
