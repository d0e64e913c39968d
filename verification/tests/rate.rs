use lightbench::rate::{
    brought, claim, credit, outcome, pause, refill_window, refill_worth, room, without_rate,
    Acquire, Claim, Refill, RefillWindow, SharedBucket, TOKEN_SCALE,
};
use lightbench::{DynamicRateController, Float, RateController, SharedRateController};
use std::time::Duration;
use tokio::time::{interval, Instant, Interval, MissedTickBehavior};

fn f(x: f64) -> Float {
    Float::from_bits(x.to_bits())
}

/// A bucket with the ticker that fills it.
struct Paced {
    bucket: RateController,
    ticker: Interval,
}

impl Paced {
    fn new(msgs_per_second: f64) -> Paced {
        let ticks_per_sec = msgs_per_second.clamp(1.0, 100.0);
        let tick = Duration::from_secs_f64(1.0 / ticks_per_sec);
        let mut ticker = interval(tick);
        ticker.set_missed_tick_behavior(MissedTickBehavior::Burst);
        let per_tick = msgs_per_second * tick.as_secs_f64();
        let tokens = per_tick.floor() as u32;
        let parts = ((per_tick - per_tick.floor()) * 256.0) as u32;
        Paced { bucket: RateController::new(f(msgs_per_second), tokens, parts), ticker }
    }

    async fn wait_for_next(&mut self) {
        if self.bucket.try_take() {
            return;
        }
        loop {
            self.ticker.tick().await;
            if self.bucket.tick() {
                return;
            }
        }
    }
}

fn on_runtime<F: std::future::Future<Output = ()>>(task: F) {
    tokio::runtime::Builder::new_current_thread().enable_time().build().unwrap().block_on(task)
}

#[test]
fn rate_controller_spaces_events() {
    on_runtime(async {
        // 50 msg/s => ~20ms interval
        let mut rc = Paced::new(50.0);
        let expected = Duration::from_millis(20);

        let mut times: Vec<Instant> = Vec::new();

        // Warm-up first token
        rc.wait_for_next().await;
        times.push(Instant::now());

        // Collect 10 ticks
        for _ in 0..10 {
            rc.wait_for_next().await;
            times.push(Instant::now());
        }

        // Compute total elapsed across 10 intervals
        let total_elapsed =
            times.last().unwrap().saturating_duration_since(*times.first().unwrap());
        let avg = total_elapsed / 10;

        // Allow generous bounds due to scheduler jitter
        let lower = expected.mul_f32(0.5); // >= 10ms
        let upper = expected.mul_f32(5.0); // <= 100ms

        assert!(avg >= lower, "avg interval too small: {:?} < {:?}", avg, lower);
        assert!(avg <= upper, "avg interval too large: {:?} > {:?}", avg, upper);
    });
}

#[test]
fn high_rate_does_not_block() {
    on_runtime(async {
        let mut rc = Paced::new(10000.0);

        let start = Instant::now();
        for _ in 0..100 {
            rc.wait_for_next().await;
        }
        let elapsed = start.elapsed();

        // Should complete reasonably fast (< 1s for 100 msgs at 10k/s)
        assert!(elapsed < Duration::from_secs(1));
    });
}

#[test]
fn the_first_message_is_not_delayed() {
    let mut bucket = RateController::new(f(0.5), 0, 128);
    assert!(bucket.try_take());
    assert!(!bucket.try_take());
}

#[test]
fn fractions_add_up_without_drift() {
    // One and a half tokens per tick.
    let mut bucket = RateController::new(f(150.0), 1, 128);
    assert!(bucket.try_take());
    let mut granted: u32 = 0;
    for _ in 0..1000 {
        if bucket.tick() {
            granted += 1;
        }
        while bucket.try_take() {
            granted += 1;
        }
    }
    assert_eq!(granted, 1500);
}

#[test]
fn a_small_fraction_is_served_in_the_end() {
    // One 256th of a token per tick.
    let mut bucket = RateController::new(f(1.0), 0, 1);
    assert!(bucket.try_take());
    for _ in 0..255 {
        assert!(!bucket.tick());
    }
    assert!(bucket.tick());
    assert!(!bucket.try_take());
}

#[test]
fn every_rate_above_zero_is_served() {
    // A tick is worth less than a 256th of a token.
    let mut bucket = RateController::new(f(1e-9), 0, 0);
    assert!(bucket.try_take());
    for _ in 0..3 {
        assert!(!bucket.try_take());
        let waited = (1..=256).find(|_| bucket.tick());
        assert_eq!(waited, Some(256));
    }
    // Without a rate nothing comes.
    let mut bucket = RateController::new(f(0.0), 0, 0);
    assert!(bucket.try_take());
    assert!((0..1000).all(|_| !bucket.tick()));
}

#[test]
fn bursts_are_limited_to_ten_ticks() {
    let mut bucket = RateController::new(f(500.0), 5, 0);
    for _ in 0..100 {
        assert!(bucket.tick());
    }
    let mut saved: u32 = 0;
    while bucket.try_take() {
        saved += 1;
    }
    assert_eq!(saved, 49);
}

#[test]
fn the_largest_refill_saturates() {
    let mut bucket = RateController::new(f(1e12), u32::MAX, 255);
    for _ in 0..10 {
        assert!(bucket.tick());
    }
    assert!(bucket.try_take());
}

#[test]
fn negative_rates_are_configured_as_zero() {
    assert_eq!(RateController::new(f(-3.0), 0, 0).rate(), f(0.0));
    assert_eq!(RateController::new(f(f64::NAN), 0, 0).rate(), f(0.0));
    assert_eq!(RateController::new(f(42.5), 0, 0).rate(), f(42.5));
    assert_eq!(SharedRateController::new(f(-3.0), 0, 0).rate(), f(0.0));
    assert_eq!(SharedRateController::new(f(42.5), 0, 0).rate(), f(42.5));
}

#[test]
fn pauses_are_shorter_at_high_rates() {
    assert_eq!(pause(f(10000.5)), 10);
    assert_eq!(pause(f(10000.0)), 100);
    assert_eq!(pause(f(1000.5)), 100);
    assert_eq!(pause(f(1000.0)), 1000);
    assert_eq!(pause(f(1.0)), 1000);
    assert_eq!(pause(f(f64::INFINITY)), 10);
    assert_eq!(pause(f(f64::NAN)), 1000);
}

#[test]
fn a_claim_takes_one_token() {
    assert_eq!(claim(f(100.0), 2_500_000), Claim::Exchange { next: 1_500_000 });
    assert_eq!(claim(f(100.0), TOKEN_SCALE), Claim::Exchange { next: 0 });
    assert_eq!(claim(f(100.0), TOKEN_SCALE - 1), Claim::Wait { micros: 1000 });
}

#[test]
fn an_attempt_ends_by_what_was_read() {
    assert_eq!(outcome(f(100.0), 1_000_000, true), Acquire::Granted);
    assert_eq!(outcome(f(100.0), 1_000_000, false), Acquire::Contended);
    assert_eq!(outcome(f(20000.0), 999_999, false), Acquire::Wait { micros: 10 });
}

#[test]
fn refills_are_due_once_time_has_passed() {
    assert_eq!(
        refill_window(100, 250),
        Some(RefillWindow { last_ns: 100, now_ns: 250, elapsed_ns: 150 })
    );
    assert_eq!(refill_window(250, 250), None);
    assert_eq!(refill_window(251, 250), None);
}

#[test]
fn credits_are_capped() {
    assert_eq!(credit(5, 7, 100), Some(12));
    assert_eq!(credit(95, 7, 100), Some(100));
    assert_eq!(credit(u64::MAX, 7, 100), Some(100));
}

/// Attempts until one is not contended.
fn attempt(rate: &SharedRateController) -> Acquire {
    loop {
        let ended = rate.try_acquire();
        if ended != Acquire::Contended {
            return ended;
        }
    }
}

#[test]
fn the_shared_bucket_starts_with_one_token() {
    let rate = SharedRateController::new(f(1000.0), 100_000_000, 0);
    assert!(!rate.is_unlimited());
    assert_eq!(attempt(&rate), Acquire::Granted);
    assert_eq!(attempt(&rate), Acquire::Wait { micros: 1000 });
}

#[test]
fn a_refill_pays_for_permits() {
    let rate = SharedRateController::new(f(5000.0), 500_000_000, 1_000);
    assert_eq!(attempt(&rate), Acquire::Granted);
    assert_eq!(attempt(&rate), Acquire::Wait { micros: 100 });
    let window = rate.refill_due(601_000).unwrap();
    assert_eq!(window, RefillWindow { last_ns: 1_000, now_ns: 601_000, elapsed_ns: 600_000 });
    assert!(rate.refill(refill_worth(window, 3_000_000).unwrap()));
    assert_eq!(rate.refill_due(601_000), None);
    for _ in 0..3 {
        assert_eq!(attempt(&rate), Acquire::Granted);
    }
    assert_eq!(attempt(&rate), Acquire::Wait { micros: 100 });
}

#[test]
fn a_window_without_tokens_stays_open() {
    let rate = SharedRateController::new(f(1.0), 0, 10);
    let window = rate.refill_due(20).unwrap();
    assert_eq!(refill_worth(window, 0), None);
    assert_eq!(rate.refill_due(20), Some(window));
    assert_eq!(rate.refill_due(10), None);
    assert_eq!(rate.refill_due(9), None);
    assert_eq!(
        refill_worth(window, 7),
        Some(Refill { last_ns: 10, now_ns: 20, new_tokens: 7 })
    );
}

#[test]
fn the_shared_bucket_is_capped_by_its_burst() {
    let rate = SharedRateController::new(f(100.0), 10_000_000, 0);
    let window = rate.refill_due(1).unwrap();
    assert!(rate.refill(refill_worth(window, u64::MAX).unwrap()));
    let mut granted: u32 = 0;
    while attempt(&rate) == Acquire::Granted {
        granted += 1;
    }
    assert_eq!(granted, 10);
}

#[test]
fn the_shared_bucket_has_room_for_one_token() {
    let rate = SharedRateController::new(f(2.0), 200_000, 0);
    let window = rate.refill_due(1).unwrap();
    assert!(rate.refill(refill_worth(window, 5_000_000).unwrap()));
    assert_eq!(attempt(&rate), Acquire::Granted);
    assert_eq!(attempt(&rate), Acquire::Wait { micros: 1000 });
}

#[test]
fn the_same_time_is_credited_once() {
    let rate = SharedRateController::new(f(100.0), 100_000_000, 0);
    assert_eq!(attempt(&rate), Acquire::Granted);
    // Two workers read the clock before either refills.
    let first = refill_worth(rate.refill_due(1_000).unwrap(), 2_000_000).unwrap();
    let second = refill_worth(rate.refill_due(1_001).unwrap(), 2_000_000).unwrap();
    assert!(rate.refill(first));
    assert!(!rate.refill(second));
    assert_eq!(attempt(&rate), Acquire::Granted);
    assert_eq!(attempt(&rate), Acquire::Granted);
    assert_eq!(attempt(&rate), Acquire::Wait { micros: 1000 });
    assert_eq!(
        rate.refill_due(1_001),
        Some(RefillWindow { last_ns: 1_000, now_ns: 1_001, elapsed_ns: 1 })
    );
}

#[test]
fn a_lost_refill_brings_nothing() {
    let refill = Refill { last_ns: 5, now_ns: 9, new_tokens: 4_000_000 };
    assert_eq!(brought(refill, true), 4_000_000);
    assert_eq!(brought(refill, false), 0);
    let bucket = SharedBucket::new(0);
    assert!(!bucket.refill(refill, 100_000_000));
    let take = || loop {
        let ended = bucket.try_take(f(100.0));
        if ended != Acquire::Contended {
            return ended;
        }
    };
    assert_eq!(take(), Acquire::Granted);
    assert_eq!(take(), Acquire::Wait { micros: 1000 });
    assert_eq!(bucket.refill_due(7).unwrap().last_ns, 0);
}

#[test]
fn permits_stay_within_the_rate_for_any_number_of_workers() {
    // 1000 per second for two seconds, refilled every millisecond by three workers in turn.
    let rate = SharedRateController::new(f(1000.0), 100_000_000, 0);
    let mut granted: u64 = 0;
    for millis in 1..=2000u64 {
        let now_ns = millis * 1_000_000;
        let due: Vec<RefillWindow> = (0..3).filter_map(|_| rate.refill_due(now_ns)).collect();
        for window in due {
            if let Some(refill) = refill_worth(window, window.elapsed_ns) {
                rate.refill(refill);
            }
        }
        for _ in 0..3 {
            while attempt(&rate) == Acquire::Granted {
                granted += 1;
            }
        }
    }
    assert_eq!(granted, 2001);
}

#[test]
fn rate_zero_and_below_is_unlimited() {
    for rate in [0.0, -0.0, -1.0, f64::NAN] {
        let rate = SharedRateController::new(f(rate), 0, 0);
        assert!(rate.is_unlimited());
        for _ in 0..100 {
            assert_eq!(rate.try_acquire(), Acquire::Granted);
        }
    }
}

#[test]
fn a_bucket_has_room_for_a_token() {
    assert_eq!(room(0), TOKEN_SCALE);
    assert_eq!(room(TOKEN_SCALE - 1), TOKEN_SCALE);
    assert_eq!(room(7 * TOKEN_SCALE), 7 * TOKEN_SCALE);
}

/// Attempts until one is not contended.
fn dynamic_attempt(rate: &DynamicRateController) -> Acquire {
    loop {
        let ended = rate.try_acquire();
        if ended != Acquire::Contended {
            return ended;
        }
    }
}

#[test]
fn without_a_rate_workers_wait_for_the_ramp() {
    assert_eq!(without_rate(true), Acquire::Wait { micros: 1000 });
    assert_eq!(without_rate(false), Acquire::Granted);
    for rate in [0.0, -2.0, f64::NAN] {
        let rate = DynamicRateController::new(f(rate), true, 0);
        assert_eq!(rate.rate(), f(0.0));
        assert_eq!(rate.try_acquire(), Acquire::Wait { micros: 1000 });
        rate.end_ramp();
        for _ in 0..100 {
            assert_eq!(rate.try_acquire(), Acquire::Granted);
        }
    }
}

#[test]
fn a_changed_rate_holds_from_then_on() {
    let rate = DynamicRateController::new(f(0.0), true, 0);
    rate.set_rate(f(20000.0));
    assert_eq!(rate.rate(), f(20000.0));
    assert_eq!(dynamic_attempt(&rate), Acquire::Granted);
    assert_eq!(dynamic_attempt(&rate), Acquire::Wait { micros: 10 });
    rate.set_rate(f(100.0));
    assert_eq!(dynamic_attempt(&rate), Acquire::Wait { micros: 1000 });
    rate.set_rate(f(-1.0));
    assert_eq!(rate.rate(), f(0.0));
}

#[test]
fn a_changing_rate_is_refilled_once_per_time() {
    let rate = DynamicRateController::new(f(100.0), false, 0);
    assert_eq!(dynamic_attempt(&rate), Acquire::Granted);
    let first = refill_worth(rate.refill_due(1_000).unwrap(), 2_000_000).unwrap();
    let second = refill_worth(rate.refill_due(1_001).unwrap(), 2_000_000).unwrap();
    assert!(rate.refill(first, 10_000_000));
    assert!(!rate.refill(second, 10_000_000));
    for _ in 0..2 {
        assert_eq!(dynamic_attempt(&rate), Acquire::Granted);
    }
    assert_eq!(dynamic_attempt(&rate), Acquire::Wait { micros: 1000 });
    // Bursts go by the allowance that is given, and there is room for one token.
    let third = refill_worth(rate.refill_due(2_000).unwrap(), 9_000_000).unwrap();
    assert!(rate.refill(third, 10));
    assert_eq!(dynamic_attempt(&rate), Acquire::Granted);
    assert_eq!(dynamic_attempt(&rate), Acquire::Wait { micros: 1000 });
}
