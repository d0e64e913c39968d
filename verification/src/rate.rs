//! Rate limiting with token buckets.
//!
//! - [`RateController`]: one bucket per worker, filled by a periodic tick.
//! - [`SharedRateController`]: one lock-free bucket for all workers, filled by elapsed time.
//! - [`DynamicRateController`]: the same with a rate that can change.
//!
//! A controller decides; the caller owns the clock. It waits for the next tick, or for
//! the time a controller asks for, and comes back.

use crate::float::{
    law_below, law_or_zero, law_positive, lemma_whole, whole, Float, ONE_THOUSAND, TEN_THOUSAND,
};
use crate::span::NANOS_PER_SEC;
use crate::sums::{lemma_total_same, lemma_total_update, total};
use std::sync::atomic::{AtomicBool, AtomicU64, Ordering};
use vstd::prelude::*;

verus! {

// ---------------------------------------------------------------------------
// Per-worker bucket
// ---------------------------------------------------------------------------

/// One token in the fixed-point unit of the fractional refill.
pub const TOKEN_PARTS: u32 = 256;

/// Ticks' worth of tokens that a bucket may save up.
pub const BURST_TICKS: u32 = 10;

/// What a per-worker bucket holds and how it fills. Parts are 256ths of a token.
pub struct Bucket {
    /// Whole tokens in store.
    pub tokens: nat,
    /// Parts saved towards the next token.
    pub parts: nat,
    /// Parts that one tick brings.
    pub per_tick: nat,
    /// Most tokens that a refill leaves in store.
    pub limit: nat,
}

impl Bucket {
    /// Everything in store, in parts.
    pub open spec fn level(self) -> nat {
        TOKEN_PARTS as nat * self.tokens + self.parts
    }

    /// Holds of every bucket in use.
    pub open spec fn valid(self) -> bool {
        &&& self.parts < TOKEN_PARTS
        &&& self.tokens <= self.limit
        &&& self.limit >= 1
    }

    /// Whether one more tick overfills the bucket.
    pub open spec fn overfills(self) -> bool {
        (self.level() + self.per_tick) / TOKEN_PARTS as nat > self.limit
    }

    /// The bucket after one tick: the parts add up, whole tokens are capped.
    pub open spec fn filled(self) -> Bucket {
        let total = self.level() + self.per_tick;
        let whole_tokens = total / TOKEN_PARTS as nat;
        Bucket {
            tokens: if whole_tokens > self.limit {
                self.limit
            } else {
                whole_tokens
            },
            parts: total % TOKEN_PARTS as nat,
            ..self
        }
    }

    /// Whether a token can be taken.
    pub open spec fn grants(self) -> bool {
        self.tokens > 0
    }

    /// The bucket after an attempt to take one token.
    pub open spec fn taken(self) -> Bucket {
        if self.grants() {
            Bucket { tokens: (self.tokens - 1) as nat, ..self }
        } else {
            self
        }
    }
}

/// Token bucket of one worker.
///
/// A permit takes one token. A tick adds `tokens_per_tick` tokens and
/// `frac_per_tick` 256ths of a token, up to a burst of ten ticks.
pub struct RateController {
    rate_per_sec: Float,
    tokens: u32,
    tokens_per_tick: u32,
    frac_per_tick: u32,
    frac_accum: u32,
    max_tokens: u32,
}

impl View for RateController {
    type V = Bucket;

    closed spec fn view(&self) -> Bucket {
        Bucket {
            tokens: self.tokens as nat,
            parts: self.frac_accum as nat,
            per_tick: TOKEN_PARTS as nat * self.tokens_per_tick as nat + self.frac_per_tick as nat,
            limit: self.max_tokens as nat,
        }
    }
}

/// The burst allowance for a refill of `tokens_per_tick`: ten ticks, and at least one token.
pub open spec fn burst_limit(tokens_per_tick: u32) -> nat {
    if tokens_per_tick == 0 {
        1
    } else if tokens_per_tick * BURST_TICKS > u32::MAX {
        u32::MAX as nat
    } else {
        (tokens_per_tick * BURST_TICKS) as nat
    }
}

/// The parts that one tick brings, where a tick is worth `tokens_per_tick` tokens and
/// `frac_per_tick` 256ths: at a rate above zero at least one part, so that waiting ends.
pub open spec fn tick_parts(rate: Float, tokens_per_tick: u32, frac_per_tick: u32) -> nat {
    let parts = TOKEN_PARTS as nat * tokens_per_tick as nat + frac_per_tick as nat;
    if parts == 0 && !rate.is_nan() && rate.units() > 0 {
        1
    } else {
        parts
    }
}

/// The bucket of a new controller.
pub open spec fn new_bucket(rate: Float, tokens_per_tick: u32, frac_per_tick: u32) -> Bucket {
    Bucket {
        tokens: 1,
        parts: 0,
        per_tick: tick_parts(rate, tokens_per_tick, frac_per_tick),
        limit: burst_limit(tokens_per_tick),
    }
}

impl RateController {
    #[verifier::type_invariant]
    spec fn well_formed(self) -> bool {
        &&& self.frac_per_tick < TOKEN_PARTS
        &&& self.frac_accum < TOKEN_PARTS
        &&& self.tokens <= self.max_tokens
        &&& self.max_tokens >= 1
    }

    /// The configured rate in messages per second.
    pub closed spec fn configured(self) -> Float {
        self.rate_per_sec
    }

    /// A controller for the given rate, whose tick is worth `tokens_per_tick` tokens and
    /// `frac_per_tick` 256ths. It starts with one token, so the first message is not delayed.
    pub fn new(msgs_per_second: Float, tokens_per_tick: u32, frac_per_tick: u32) -> (r: Self)
        requires
            frac_per_tick < TOKEN_PARTS,
        ensures
            r.configured() == msgs_per_second.spec_or_zero(),
            r@ == new_bucket(msgs_per_second, tokens_per_tick, frac_per_tick),
            r@.valid(),
    {
        let burst: u32 = if tokens_per_tick > u32::MAX / BURST_TICKS {
            u32::MAX
        } else {
            tokens_per_tick * BURST_TICKS
        };
        let max_tokens: u32 = if burst < 1 {
            1
        } else {
            burst
        };
        proof {
            assert(crate::float::magnitude(0) == 0);
        }
        let nothing: bool = tokens_per_tick == 0 && frac_per_tick == 0;
        let frac_per_tick: u32 = if nothing && (Float { bits: 0 }).lt(msgs_per_second) {
            1
        } else {
            frac_per_tick
        };
        RateController {
            rate_per_sec: msgs_per_second.or_zero(),
            tokens: 1,
            tokens_per_tick,
            frac_per_tick,
            frac_accum: 0,
            max_tokens,
        }
    }

    /// Takes a token if one is in store; otherwise the caller waits for a tick.
    pub fn try_take(&mut self) -> (granted: bool)
        ensures
            old(self)@.valid(),
            granted == old(self)@.grants(),
            final(self)@ == old(self)@.taken(),
            final(self).configured() == old(self).configured(),
    {
        proof {
            use_type_invariant(&*self);
        }
        if self.tokens > 0 {
            self.tokens = self.tokens - 1;
            true
        } else {
            false
        }
    }

    /// Adds what one tick brings, then takes a token if there is one.
    pub fn tick(&mut self) -> (granted: bool)
        ensures
            old(self)@.valid(),
            granted == old(self)@.filled().grants(),
            final(self)@ == old(self)@.filled().taken(),
            final(self).configured() == old(self).configured(),
    {
        proof {
            use_type_invariant(&*self);
        }
        let acc: u32 = self.frac_accum + self.frac_per_tick;
        let carry: u32 = acc / TOKEN_PARTS;
        let sum: u32 = self.tokens.saturating_add(self.tokens_per_tick).saturating_add(carry);
        let stored: u32 = if sum > self.max_tokens {
            self.max_tokens
        } else {
            sum
        };
        assert((self@.level() + self@.per_tick) == TOKEN_PARTS * (self.tokens
            + self.tokens_per_tick) + acc);
        self.frac_accum = acc % TOKEN_PARTS;
        self.tokens = stored;
        self.try_take()
    }

    /// The configured rate in messages per second.
    pub fn rate(&self) -> (r: Float)
        ensures
            r == self.configured(),
    {
        self.rate_per_sec
    }
}

/// What can happen to a per-worker bucket.
pub enum BucketStep {
    /// The worker asks for a permit.
    Take,
    /// A tick arrives while the worker waits for a permit.
    Tick,
}

/// The bucket after one step.
pub open spec fn bucket_after(b: Bucket, step: BucketStep) -> Bucket {
    match step {
        BucketStep::Take => b.taken(),
        BucketStep::Tick => b.filled().taken(),
    }
}

/// Permits that one step grants.
pub open spec fn bucket_permits(b: Bucket, step: BucketStep) -> nat {
    let granted = match step {
        BucketStep::Take => b.grants(),
        BucketStep::Tick => b.filled().grants(),
    };
    if granted {
        1
    } else {
        0
    }
}

/// The bucket after a run of steps.
pub open spec fn bucket_run(b: Bucket, steps: Seq<BucketStep>) -> Bucket
    decreases steps.len(),
{
    if steps.len() == 0 {
        b
    } else {
        bucket_after(bucket_run(b, steps.drop_last()), steps.last())
    }
}

/// Permits granted over a run of steps.
pub open spec fn permits(b: Bucket, steps: Seq<BucketStep>) -> nat
    decreases steps.len(),
{
    if steps.len() == 0 {
        0
    } else {
        permits(b, steps.drop_last()) + bucket_permits(
            bucket_run(b, steps.drop_last()),
            steps.last(),
        )
    }
}

/// Ticks in a run of steps.
pub open spec fn ticks(steps: Seq<BucketStep>) -> nat
    decreases steps.len(),
{
    if steps.len() == 0 {
        0
    } else {
        ticks(steps.drop_last()) + if steps.last() is Tick {
            1nat
        } else {
            0nat
        }
    }
}

/// Whether some tick of the run overfills the bucket.
pub open spec fn spills(b: Bucket, steps: Seq<BucketStep>) -> bool
    decreases steps.len(),
{
    steps.len() > 0 && (spills(b, steps.drop_last()) || (steps.last() is Tick && bucket_run(
        b,
        steps.drop_last(),
    ).overfills()))
}

/// Every step keeps the bucket valid and its refill and limit as they were:
/// a bucket never holds more than its burst allowance.
pub proof fn law_bucket_stays_valid(b: Bucket, steps: Seq<BucketStep>)
    requires
        b.valid(),
    ensures
        bucket_run(b, steps).valid(),
        bucket_run(b, steps).per_tick == b.per_tick,
        bucket_run(b, steps).limit == b.limit,
    decreases steps.len(),
{
    if steps.len() > 0 {
        law_bucket_stays_valid(b, steps.drop_last());
    }
}

/// Over any run, permits never exceed what was in store plus what the ticks brought,
/// and where no tick overfilled the bucket nothing is lost: fractions of a token
/// add up without drift.
pub proof fn law_permits_match_rate(b: Bucket, steps: Seq<BucketStep>)
    requires
        b.valid(),
    ensures
        TOKEN_PARTS * permits(b, steps) + bucket_run(b, steps).level() <= b.level() + ticks(steps)
            * b.per_tick,
        !spills(b, steps) ==> TOKEN_PARTS * permits(b, steps) + bucket_run(b, steps).level()
            == b.level() + ticks(steps) * b.per_tick,
    decreases steps.len(),
{
    if steps.len() == 0 {
        assert(ticks(steps) * b.per_tick == 0) by (nonlinear_arith)
            requires
                ticks(steps) == 0,
        ;
    } else {
        let before = steps.drop_last();
        law_permits_match_rate(b, before);
        law_bucket_stays_valid(b, before);
        let m = bucket_run(b, before);
        assert((ticks(before) + 1) * b.per_tick == ticks(before) * b.per_tick + b.per_tick)
            by (nonlinear_arith);
        assert(m.filled().level() <= m.level() + m.per_tick);
        assert(!m.overfills() ==> m.filled().level() == m.level() + m.per_tick);
    }
}

/// A worker that waits is served: once the ticks have brought a whole token,
/// one of them has granted a permit.
pub proof fn law_waiting_ends(b: Bucket, n: nat)
    requires
        b.valid(),
        b.level() + n * b.per_tick >= TOKEN_PARTS,
        n > 0,
    ensures
        permits(b, Seq::new(n, |i: int| BucketStep::Tick)) >= 1,
{
    lemma_unserved(b, n);
}

/// At every rate above zero the first permit comes at once, and whatever happened before,
/// no wait is longer than 256 ticks.
pub proof fn law_every_wait_ends(
    rate: Float,
    tokens_per_tick: u32,
    frac_per_tick: u32,
    steps: Seq<BucketStep>,
)
    requires
        frac_per_tick < TOKEN_PARTS,
        !rate.is_nan(),
        rate.units() > 0,
    ensures
        ({
            let b = new_bucket(rate, tokens_per_tick, frac_per_tick);
            &&& b.grants()
            &&& permits(
                bucket_run(b, steps),
                Seq::new(TOKEN_PARTS as nat, |i: int| BucketStep::Tick),
            ) >= 1
        }),
{
    let b = new_bucket(rate, tokens_per_tick, frac_per_tick);
    law_bucket_stays_valid(b, steps);
    let m = bucket_run(b, steps);
    assert(TOKEN_PARTS * m.per_tick >= TOKEN_PARTS) by (nonlinear_arith)
        requires
            m.per_tick >= 1,
    ;
    law_waiting_ends(m, TOKEN_PARTS as nat);
}

/// While no tick grants a permit, the parts pile up below one token.
proof fn lemma_unserved(b: Bucket, n: nat)
    requires
        b.valid(),
    ensures
        ({
            let steps = Seq::new(n, |i: int| BucketStep::Tick);
            n > 0 && permits(b, steps) == 0 ==> b.level() + n * b.per_tick < TOKEN_PARTS
                && bucket_run(b, steps).level() == b.level() + n * b.per_tick
        }),
    decreases n,
{
    let steps = Seq::new(n, |i: int| BucketStep::Tick);
    if n > 0 {
        let m = (n - 1) as nat;
        let before = Seq::new(m, |i: int| BucketStep::Tick);
        assert(steps.drop_last() =~= before);
        lemma_unserved(b, m);
        law_bucket_stays_valid(b, before);
        assert(n * b.per_tick == m * b.per_tick + b.per_tick) by (nonlinear_arith)
            requires
                n == m + 1,
        ;
        if m == 0 {
            assert(bucket_run(b, before) == b);
            assert(m * b.per_tick == 0) by (nonlinear_arith)
                requires
                    m == 0,
            ;
        }
    }
}

// ---------------------------------------------------------------------------
// Shared bucket
// ---------------------------------------------------------------------------

/// One token in the unit of the shared bucket.
pub const TOKEN_SCALE: u64 = 1_000_000;

/// How one attempt to acquire a permit ended.
#[derive(Clone, Copy, Debug, PartialEq, Eq, Structural)]
pub enum Acquire {
    /// The permit is granted.
    Granted,
    /// Another worker changed the bucket in between; try again at once.
    Contended,
    /// The bucket is empty; try again after this many microseconds.
    Wait { micros: u64 },
}

/// What to do with the number of tokens that was read.
#[derive(Clone, Copy, Debug, PartialEq, Eq, Structural)]
pub enum Claim {
    /// Replace the number read by `next`.
    Exchange { next: u64 },
    /// Too few tokens; wait this many microseconds.
    Wait { micros: u64 },
}

/// Time since the last refill, which is now due.
#[derive(Clone, Copy, Debug, PartialEq, Eq, Structural)]
pub struct RefillWindow {
    /// When the bucket was last refilled, in nanoseconds.
    pub last_ns: u64,
    /// The present, in nanoseconds.
    pub now_ns: u64,
    /// Nanoseconds between the two.
    pub elapsed_ns: u64,
}

/// A refill that is worth something.
#[derive(Clone, Copy, Debug, PartialEq, Eq, Structural)]
pub struct Refill {
    /// When the bucket was last refilled, in nanoseconds.
    pub last_ns: u64,
    /// The present, in nanoseconds.
    pub now_ns: u64,
    /// The tokens that came in between the two.
    pub new_tokens: u64,
}

/// The pause between attempts: shorter at high rates.
pub open spec fn pause_micros(rate: Float) -> u64 {
    if !rate.is_nan() && rate.units() > whole(10000) {
        10
    } else if !rate.is_nan() && rate.units() > whole(1000) {
        100
    } else {
        1000
    }
}

/// Microseconds to wait at this rate when the bucket is empty.
pub fn pause(rate: Float) -> (r: u64)
    ensures
        r == pause_micros(rate),
{
    proof {
        vstd::arithmetic::power2::lemma2_to64();
        vstd::arithmetic::power2::lemma2_to64_rest();
        lemma_whole(TEN_THOUSAND, 10000, 39);
        lemma_whole(ONE_THOUSAND, 1000, 43);
    }
    if (Float { bits: TEN_THOUSAND }).lt(rate) {
        10
    } else if (Float { bits: ONE_THOUSAND }).lt(rate) {
        100
    } else {
        1000
    }
}

/// The number of tokens once one is taken.
pub open spec fn after_take(current: u64) -> u64 {
    (current - TOKEN_SCALE) as u64
}

/// What a worker does that has read `current` tokens.
pub fn claim(rate: Float, current: u64) -> (r: Claim)
    ensures
        r == (if current >= TOKEN_SCALE {
            Claim::Exchange { next: after_take(current) }
        } else {
            Claim::Wait { micros: pause_micros(rate) }
        }),
{
    if current >= TOKEN_SCALE {
        Claim::Exchange { next: current - TOKEN_SCALE }
    } else {
        Claim::Wait { micros: pause(rate) }
    }
}

/// How the attempt ends of a worker that has read `current` tokens and then did or
/// did not exchange them.
pub open spec fn spec_outcome(rate: Float, current: u64, exchanged: bool) -> Acquire {
    if current < TOKEN_SCALE {
        Acquire::Wait { micros: pause_micros(rate) }
    } else if exchanged {
        Acquire::Granted
    } else {
        Acquire::Contended
    }
}

/// How the attempt ends of a worker that has read `current` tokens and then did or
/// did not exchange them.
pub fn outcome(rate: Float, current: u64, exchanged: bool) -> (r: Acquire)
    ensures
        r == spec_outcome(rate, current, exchanged),
{
    match claim(rate, current) {
        Claim::Exchange { next: _ } => if exchanged {
            Acquire::Granted
        } else {
            Acquire::Contended
        },
        Claim::Wait { micros } => Acquire::Wait { micros },
    }
}

/// The window between two readings of the clock; none where no time has passed.
pub open spec fn spec_refill_window(last_ns: u64, now_ns: u64) -> Option<RefillWindow> {
    if now_ns > last_ns {
        Some(RefillWindow { last_ns, now_ns, elapsed_ns: (now_ns - last_ns) as u64 })
    } else {
        None
    }
}

/// The window between two readings of the clock; none where no time has passed.
pub fn refill_window(last_ns: u64, now_ns: u64) -> (r: Option<RefillWindow>)
    ensures
        r == spec_refill_window(last_ns, now_ns),
{
    let elapsed_ns: u64 = now_ns.saturating_sub(last_ns);
    if elapsed_ns == 0 {
        None
    } else {
        Some(RefillWindow { last_ns, now_ns, elapsed_ns })
    }
}

/// The refill for the tokens of a window; none where they are none, so that a window too
/// short for a token stays open.
pub open spec fn spec_refill_worth(window: RefillWindow, new_tokens: u64) -> Option<Refill> {
    if new_tokens == 0 {
        None
    } else {
        Some(Refill { last_ns: window.last_ns, now_ns: window.now_ns, new_tokens })
    }
}

/// The refill for the tokens of a window; none where they are none, so that a window too
/// short for a token stays open.
pub fn refill_worth(window: RefillWindow, new_tokens: u64) -> (r: Option<Refill>)
    ensures
        r == spec_refill_worth(window, new_tokens),
{
    if new_tokens == 0 {
        None
    } else {
        Some(Refill { last_ns: window.last_ns, now_ns: window.now_ns, new_tokens })
    }
}

/// The room of a bucket with the given allowance for bursts: one token at least.
pub open spec fn spec_room(burst: u64) -> u64 {
    if burst < TOKEN_SCALE {
        TOKEN_SCALE
    } else {
        burst
    }
}

/// The room of a bucket with the given allowance for bursts: one token at least.
pub fn room(burst: u64) -> (r: u64)
    ensures
        r == spec_room(burst),
{
    if burst < TOKEN_SCALE {
        TOKEN_SCALE
    } else {
        burst
    }
}

/// The content of a bucket that held `current` once `new_tokens` came in.
pub open spec fn spec_credit(current: u64, new_tokens: u64, max_tokens: u64) -> u64 {
    if current + new_tokens > max_tokens {
        max_tokens
    } else {
        (current + new_tokens) as u64
    }
}

/// The content of a bucket that held `current` once `new_tokens` came in; never `None`.
pub fn credit(current: u64, new_tokens: u64, max_tokens: u64) -> (r: Option<u64>)
    ensures
        r == Some(spec_credit(current, new_tokens, max_tokens)),
{
    let sum: u64 = current.saturating_add(new_tokens);
    if sum > max_tokens {
        Some(max_tokens)
    } else {
        Some(sum)
    }
}

/// The tokens that a refill brings once the time of the last refill was, or was not,
/// exchanged: where another worker exchanged it first, that worker has them.
pub open spec fn spec_brought(refill: Refill, exchanged: bool) -> u64 {
    if exchanged {
        refill.new_tokens
    } else {
        0
    }
}

/// The tokens that a refill brings once the time of the last refill was, or was not,
/// exchanged.
pub fn brought(refill: Refill, exchanged: bool) -> (r: u64)
    ensures
        r == spec_brought(refill, exchanged),
{
    if exchanged {
        refill.new_tokens
    } else {
        0
    }
}

/// Calls [`AtomicU64::fetch_update`], which replaces the shared number of tokens by what
/// [`credit`] makes of it, in one atomic step. Nothing is claimed of the number: other
/// workers change it at any time.
#[verifier::external_body]
fn credit_shared(tokens: &AtomicU64, new_tokens: u64, max_tokens: u64) {
    let _ = tokens.fetch_update(
        Ordering::Relaxed,
        Ordering::Relaxed,
        |current| credit(current, new_tokens, max_tokens),
    );
}

/// The numbers of a bucket that workers share, who compete for tokens without a lock.
pub struct SharedBucket {
    tokens: AtomicU64,
    last_refill_ns: AtomicU64,
}

impl SharedBucket {
    /// Whether the bucket was made with one token, and as last refilled at `now_ns`.
    pub closed spec fn starts_at(self, now_ns: u64) -> bool {
        &&& call_ensures(AtomicU64::new, (TOKEN_SCALE,), self.tokens)
        &&& call_ensures(AtomicU64::new, (now_ns,), self.last_refill_ns)
    }

    /// Whether an attempt at the given rate can end so: with the number of tokens that was
    /// read, and, where that is enough for a permit, with whether the number was exchanged
    /// for one token less.
    pub closed spec fn attempted(self, rate: Float, ended: Acquire) -> bool {
        exists|current: u64|
            {
                &&& #[trigger] call_ensures(
                    AtomicU64::load,
                    (&self.tokens, Ordering::Relaxed),
                    current,
                )
                &&& if current >= TOKEN_SCALE {
                    exists|exchanged: Result<u64, u64>|
                        {
                            &&& #[trigger] call_ensures(
                                AtomicU64::compare_exchange_weak,
                                (
                                    &self.tokens,
                                    current,
                                    after_take(current),
                                    Ordering::Relaxed,
                                    Ordering::Relaxed,
                                ),
                                exchanged,
                            )
                            &&& ended == spec_outcome(rate, current, exchanged is Ok)
                        }
                } else {
                    ended == spec_outcome(rate, current, false)
                }
            }
    }

    /// Whether `last_ns` can be read as the time of the last refill.
    pub closed spec fn last_refilled(self, last_ns: u64) -> bool {
        call_ensures(AtomicU64::load, (&self.last_refill_ns, Ordering::Relaxed), last_ns)
    }

    /// Whether a refill can end so: the time of the last refill is, or is not, exchanged for
    /// the present, and what the refill then brings, nothing where the exchange failed, is
    /// credited up to the limit.
    pub closed spec fn refilled(self, refill: Refill, limit: u64, credited: bool) -> bool {
        &&& exists|exchanged: Result<u64, u64>|
            {
                &&& #[trigger] call_ensures(
                    AtomicU64::compare_exchange,
                    (
                        &self.last_refill_ns,
                        refill.last_ns,
                        refill.now_ns,
                        Ordering::Relaxed,
                        Ordering::Relaxed,
                    ),
                    exchanged,
                )
                &&& credited == exchanged is Ok
            }
        &&& call_ensures(credit_shared, (&self.tokens, spec_brought(refill, credited), limit), ())
    }

    /// A bucket with one token, as last refilled at `now_ns`.
    pub fn new(now_ns: u64) -> (r: SharedBucket)
        ensures
            r.starts_at(now_ns),
    {
        SharedBucket {
            tokens: AtomicU64::new(TOKEN_SCALE),
            last_refill_ns: AtomicU64::new(now_ns),
        }
    }

    /// One attempt to take a token, at the given rate.
    ///
    /// Which outcome comes depends on the number of tokens that is read and on whether
    /// another worker changes it in between.
    pub fn try_take(&self, rate: Float) -> (r: Acquire)
        ensures
            self.attempted(rate, r),
    {
        let current: u64 = self.tokens.load(Ordering::Relaxed);
        let exchanged = match claim(rate, current) {
            Claim::Exchange { next } => {
                self.tokens.compare_exchange_weak(
                    current,
                    next,
                    Ordering::Relaxed,
                    Ordering::Relaxed,
                ).is_ok()
            },
            Claim::Wait { micros: _ } => false,
        };
        outcome(rate, current, exchanged)
    }

    /// The time for which tokens are due at `now_ns`; none where the clock has not moved on.
    ///
    /// When the bucket was last refilled is read from the shared number.
    pub fn refill_due(&self, now_ns: u64) -> (r: Option<RefillWindow>)
        ensures
            exists|last_ns: u64| #[trigger]
                self.last_refilled(last_ns) && r == spec_refill_window(last_ns, now_ns),
    {
        let last_ns: u64 = self.last_refill_ns.load(Ordering::Relaxed);
        assert(self.last_refilled(last_ns));
        refill_window(last_ns, now_ns)
    }

    /// Adds the tokens of a refill up to the limit, and tells whether it did: where another
    /// worker has refilled the bucket since `last_ns`, that worker has the tokens of this
    /// time.
    pub fn refill(&self, refill: Refill, limit: u64) -> (credited: bool)
        ensures
            self.refilled(refill, limit, credited),
    {
        let exchanged: Result<u64, u64> = self.last_refill_ns.compare_exchange(
            refill.last_ns,
            refill.now_ns,
            Ordering::Relaxed,
            Ordering::Relaxed,
        );
        let credited: bool = exchanged.is_ok();
        credit_shared(&self.tokens, brought(refill, credited), limit);
        credited
    }
}

/// Token bucket that all workers share.
pub struct SharedRateController {
    rate_per_sec: Float,
    bucket: SharedBucket,
    max_tokens: u64,
}

impl SharedRateController {
    #[verifier::type_invariant]
    spec fn well_formed(self) -> bool {
        &&& !self.rate_per_sec.is_nan()
        &&& self.rate_per_sec.units() >= 0
        &&& self.max_tokens >= TOKEN_SCALE
    }

    /// The configured rate in messages per second.
    pub closed spec fn configured(self) -> Float {
        self.rate_per_sec
    }

    /// The shared numbers.
    pub closed spec fn bucket(self) -> SharedBucket {
        self.bucket
    }

    /// The most that a refill leaves in the bucket.
    pub closed spec fn limit(self) -> u64 {
        self.max_tokens
    }

    /// Whether permits are granted without tokens.
    pub open spec fn unlimited(self) -> bool {
        self.configured().units() <= 0
    }

    /// A controller for the given rate, at time `now_ns`. It starts with one token.
    ///
    /// `burst` is the allowance for bursts; the bucket has room for one token at least.
    /// A rate of zero, below zero or not a number is unlimited.
    pub fn new(msgs_per_second: Float, burst: u64, now_ns: u64) -> (r: Self)
        ensures
            r.configured() == msgs_per_second.spec_or_zero(),
            r.limit() == spec_room(burst),
            r.bucket().starts_at(now_ns),
    {
        let max_tokens: u64 = room(burst);
        SharedRateController {
            rate_per_sec: msgs_per_second.or_zero(),
            bucket: SharedBucket::new(now_ns),
            max_tokens,
        }
    }

    /// Whether permits are granted without tokens (rate zero).
    pub fn is_unlimited(&self) -> (r: bool)
        ensures
            r == self.unlimited(),
    {
        proof {
            use_type_invariant(self);
            assert(crate::float::magnitude(0) == 0);
        }
        self.rate_per_sec.le(Float { bits: 0 })
    }

    /// The configured rate in messages per second.
    pub fn rate(&self) -> (r: Float)
        ensures
            r == self.configured(),
    {
        self.rate_per_sec
    }

    /// One attempt to acquire a permit.
    pub fn try_acquire(&self) -> (r: Acquire)
        ensures
            self.unlimited() ==> r is Granted,
            !self.unlimited() ==> self.bucket().attempted(self.configured(), r),
    {
        if self.is_unlimited() {
            Acquire::Granted
        } else {
            self.bucket.try_take(self.rate_per_sec)
        }
    }

    /// The time for which tokens are due at `now_ns`; none where the clock has not moved on.
    pub fn refill_due(&self, now_ns: u64) -> (r: Option<RefillWindow>)
        ensures
            exists|last_ns: u64| #[trigger]
                self.bucket().last_refilled(last_ns) && r == spec_refill_window(last_ns, now_ns),
    {
        assert(self.bucket() == self.bucket);
        self.bucket.refill_due(now_ns)
    }

    /// Adds the tokens of a refill, and tells whether it did.
    pub fn refill(&self, refill: Refill) -> (credited: bool)
        ensures
            self.bucket().refilled(refill, self.limit(), credited),
    {
        self.bucket.refill(refill, self.max_tokens)
    }
}

// ---------------------------------------------------------------------------
// Shared bucket with a changing rate
// ---------------------------------------------------------------------------

/// How an attempt ends without a rate: workers are held back while the rate still rises, and
/// go unlimited otherwise.
pub open spec fn spec_without_rate(ramping: bool) -> Acquire {
    if ramping {
        Acquire::Wait { micros: 1000 }
    } else {
        Acquire::Granted
    }
}

/// How an attempt ends without a rate: workers are held back while the rate still rises, and
/// go unlimited otherwise.
pub fn without_rate(ramping: bool) -> (r: Acquire)
    ensures
        r == spec_without_rate(ramping),
{
    if ramping {
        Acquire::Wait { micros: 1000 }
    } else {
        Acquire::Granted
    }
}

/// Token bucket that all workers share, whose rate can change.
///
/// While the rate rises, a rate of zero holds the workers back; otherwise it is unlimited.
pub struct DynamicRateController {
    rate_bits: AtomicU64,
    ramping: AtomicBool,
    bucket: SharedBucket,
}

impl DynamicRateController {
    /// The shared numbers of the bucket.
    pub closed spec fn bucket(self) -> SharedBucket {
        self.bucket
    }

    /// Whether the controller was made with this rate, rising or not.
    pub closed spec fn starts_with(self, rate: Float, ramping: bool) -> bool {
        &&& call_ensures(AtomicU64::new, (rate.bits,), self.rate_bits)
        &&& call_ensures(AtomicBool::new, (ramping,), self.ramping)
    }

    /// Whether the rate was set so.
    pub closed spec fn rate_set(self, rate: Float) -> bool {
        call_ensures(AtomicU64::store, (&self.rate_bits, rate.bits, Ordering::SeqCst), ())
    }

    /// Whether the rate can be read so.
    pub closed spec fn rate_read(self, rate: Float) -> bool {
        call_ensures(AtomicU64::load, (&self.rate_bits, Ordering::SeqCst), rate.bits)
    }

    /// Whether it was noted that the rate rises no more.
    pub closed spec fn ramp_ended(self) -> bool {
        call_ensures(AtomicBool::store, (&self.ramping, false, Ordering::SeqCst), ())
    }

    /// Whether it can be read that the rate rises, or does not.
    pub closed spec fn ramp_read(self, ramping: bool) -> bool {
        call_ensures(AtomicBool::load, (&self.ramping, Ordering::SeqCst), ramping)
    }

    /// Whether an attempt can end so that read this rate, rising or not.
    pub open spec fn ends(self, rate: Float, ramping: bool, ended: Acquire) -> bool {
        if rate.spec_or_zero().units() > 0 {
            self.bucket().attempted(rate, ended)
        } else {
            ended == spec_without_rate(ramping)
        }
    }

    /// A controller that starts at the given rate, at time `now_ns` and with one token. A rate
    /// below zero or not a number counts as zero.
    pub fn new(msgs_per_second: Float, ramping: bool, now_ns: u64) -> (r: Self)
        ensures
            r.starts_with(msgs_per_second.spec_or_zero(), ramping),
            r.bucket().starts_at(now_ns),
    {
        DynamicRateController {
            rate_bits: AtomicU64::new(msgs_per_second.or_zero().bits),
            ramping: AtomicBool::new(ramping),
            bucket: SharedBucket::new(now_ns),
        }
    }

    /// Changes the rate; below zero or not a number counts as zero.
    pub fn set_rate(&self, msgs_per_second: Float)
        ensures
            self.rate_set(msgs_per_second.spec_or_zero()),
    {
        self.rate_bits.store(msgs_per_second.or_zero().bits, Ordering::SeqCst);
    }

    /// Notes that the rate rises no more.
    pub fn end_ramp(&self)
        ensures
            self.ramp_ended(),
    {
        self.ramping.store(false, Ordering::SeqCst);
    }

    /// The present rate in messages per second.
    pub fn rate(&self) -> (r: Float)
        ensures
            self.rate_read(r),
    {
        Float::from_bits(self.rate_bits.load(Ordering::SeqCst))
    }

    /// One attempt to acquire a permit.
    ///
    /// The rate is read last, so that who reads that it rises no more reads the final rate.
    pub fn try_acquire(&self) -> (r: Acquire)
        ensures
            exists|ramping: bool, rate: Float| #[trigger]
                self.ramp_read(ramping) && #[trigger] self.rate_read(rate) && self.ends(
                    rate,
                    ramping,
                    r,
                ),
    {
        proof {
            assert(crate::float::magnitude(0) == 0);
        }
        let ramping: bool = self.ramping.load(Ordering::SeqCst);
        let rate: Float = self.rate();
        assert(self.ramp_read(ramping) && self.rate_read(rate));
        if (Float { bits: 0 }).lt(rate) {
            self.bucket.try_take(rate)
        } else {
            without_rate(ramping)
        }
    }

    /// The time for which tokens are due at `now_ns`; none where the clock has not moved on.
    pub fn refill_due(&self, now_ns: u64) -> (r: Option<RefillWindow>)
        ensures
            exists|last_ns: u64| #[trigger]
                self.bucket().last_refilled(last_ns) && r == spec_refill_window(last_ns, now_ns),
    {
        assert(self.bucket() == self.bucket);
        self.bucket.refill_due(now_ns)
    }

    /// Adds the tokens of a refill, and tells whether it did. `burst` is the allowance for
    /// bursts at the present rate; the bucket has room for one token at least.
    pub fn refill(&self, refill: Refill, burst: u64) -> (credited: bool)
        ensures
            self.bucket().refilled(refill, spec_room(burst), credited),
    {
        self.bucket.refill(refill, room(burst))
    }
}

// ---------------------------------------------------------------------------
// All workers of a shared bucket
// ---------------------------------------------------------------------------

/// A shared bucket, its workers and its history.
pub struct Pool {
    /// Tokens in store.
    pub tokens: u64,
    /// When the bucket was last refilled, in nanoseconds.
    pub last_ns: u64,
    /// For each worker between the exchange and the credit of a refill, what it brings.
    pub hands: Seq<Option<u64>>,
    /// Permits granted to all workers.
    pub permits: nat,
    /// Tokens of all refills.
    pub minted: nat,
    /// Tokens that found no room.
    pub spilled: nat,
}

/// The atomic changes that workers make to a shared bucket: those of
/// [`SharedBucket::refill`], one after the other, and that of [`SharedBucket::try_take`].
pub enum PoolStep {
    /// A worker tries to exchange the time of the last refill.
    Exchange { worker: int, refill: Refill },
    /// The worker credits what its refill brings, up to a limit.
    Credit { worker: int, limit: u64 },
    /// A worker tries to exchange the tokens that it read for one token less.
    Take { read: u64 },
}

/// A bucket as it is made at `start_ns`, with so many workers.
pub open spec fn pool_start(workers: nat, start_ns: u64) -> Pool {
    Pool {
        tokens: TOKEN_SCALE,
        last_ns: start_ns,
        hands: Seq::new(workers, |k: int| None),
        permits: 0,
        minted: 0,
        spilled: 0,
    }
}

/// The tokens in a worker's hands.
pub open spec fn in_hand(hand: Option<u64>) -> nat {
    match hand {
        Some(tokens) => tokens as nat,
        None => 0,
    }
}

/// The tokens in all workers' hands.
pub open spec fn owed(b: Pool) -> nat {
    total(b.hands, |hand: Option<u64>| in_hand(hand))
}

/// Whether a refill brings no more than `rate` tokens per second.
pub open spec fn within_rate(rate: nat, refill: Refill) -> bool {
    &&& refill.now_ns > refill.last_ns
    &&& refill.new_tokens * NANOS_PER_SEC <= rate * (refill.now_ns - refill.last_ns)
}

/// Whether the step can happen, where neither the rate nor the limit of the bucket is ever
/// above the given ones.
pub open spec fn pool_can(rate: nat, limit: u64, b: Pool, step: PoolStep) -> bool {
    match step {
        PoolStep::Exchange { worker, refill } => {
            &&& 0 <= worker < b.hands.len()
            &&& b.hands[worker] is None
            &&& within_rate(rate, refill)
        },
        PoolStep::Credit { worker, limit: present } => {
            &&& 0 <= worker < b.hands.len()
            &&& b.hands[worker] is Some
            &&& present <= limit
        },
        PoolStep::Take { read: _ } => true,
    }
}

/// The bucket after one atomic change. An exchange succeeds only where the number is still
/// the one that was read.
pub open spec fn pool_after(b: Pool, step: PoolStep) -> Pool {
    match step {
        PoolStep::Exchange { worker, refill } => {
            let exchanged = refill.last_ns == b.last_ns;
            Pool {
                last_ns: if exchanged {
                    refill.now_ns
                } else {
                    b.last_ns
                },
                hands: b.hands.update(worker, Some(spec_brought(refill, exchanged))),
                minted: b.minted + spec_brought(refill, exchanged) as nat,
                ..b
            }
        },
        PoolStep::Credit { worker, limit } => {
            let new_tokens = b.hands[worker]->0;
            let tokens = spec_credit(b.tokens, new_tokens, limit);
            Pool {
                tokens,
                hands: b.hands.update(worker, None),
                spilled: (b.spilled + b.tokens + new_tokens - tokens) as nat,
                ..b
            }
        },
        PoolStep::Take { read } => if read >= TOKEN_SCALE && read == b.tokens {
            Pool { tokens: after_take(read), permits: b.permits + 1, ..b }
        } else {
            b
        },
    }
}

/// The bucket after a run of atomic changes, by whichever workers, where they can all
/// happen in this order.
pub open spec fn pool_run(
    workers: nat,
    start_ns: u64,
    rate: nat,
    limit: u64,
    steps: Seq<PoolStep>,
) -> Option<Pool>
    decreases steps.len(),
{
    if steps.len() == 0 {
        Some(pool_start(workers, start_ns))
    } else {
        match pool_run(workers, start_ns, rate, limit, steps.drop_last()) {
            Some(b) => if pool_can(rate, limit, b, steps.last()) {
                Some(pool_after(b, steps.last()))
            } else {
                None
            },
            None => None,
        }
    }
}

/// However the workers interleave, and however many they are, the bucket never holds more
/// than its limit, and no token is given out twice: permits, tokens in store and in workers'
/// hands, and tokens that found no room make up the first token and the refills.
pub proof fn law_shared_permits_are_paid(
    workers: nat,
    start_ns: u64,
    rate: nat,
    limit: u64,
    steps: Seq<PoolStep>,
)
    requires
        limit >= TOKEN_SCALE,
        pool_run(workers, start_ns, rate, limit, steps) is Some,
    ensures
        ({
            let b = pool_run(workers, start_ns, rate, limit, steps)->0;
            &&& b.tokens <= limit
            &&& TOKEN_SCALE * b.permits + b.tokens + owed(b) + b.spilled == TOKEN_SCALE + b.minted
        }),
    decreases steps.len(),
{
    let of = |hand: Option<u64>| in_hand(hand);
    if steps.len() == 0 {
        lemma_total_same(pool_start(workers, start_ns).hands, 0, of);
    } else {
        law_shared_permits_are_paid(workers, start_ns, rate, limit, steps.drop_last());
        let b = pool_run(workers, start_ns, rate, limit, steps.drop_last())->0;
        match steps.last() {
            PoolStep::Exchange { worker, refill } => {
                let hand = Some(spec_brought(refill, refill.last_ns == b.last_ns));
                lemma_total_update(b.hands, worker, hand, of);
            },
            PoolStep::Credit { worker, limit: _ } => {
                lemma_total_update(b.hands, worker, None, of);
            },
            PoolStep::Take { read: _ } => {},
        }
    }
}

/// The total rate holds whatever the number of workers and however they interleave: up to
/// any moment the permits of all workers together are at most the first token and `rate`
/// tokens, in the unit of the bucket, per second since the start. Where the rate changes,
/// `rate` is the highest.
pub proof fn law_shared_rate(
    workers: nat,
    start_ns: u64,
    rate: nat,
    limit: u64,
    steps: Seq<PoolStep>,
)
    requires
        limit >= TOKEN_SCALE,
        pool_run(workers, start_ns, rate, limit, steps) is Some,
    ensures
        ({
            let b = pool_run(workers, start_ns, rate, limit, steps)->0;
            &&& b.last_ns >= start_ns
            &&& (TOKEN_SCALE * b.permits + b.tokens) * NANOS_PER_SEC <= TOKEN_SCALE * NANOS_PER_SEC
                + rate * (b.last_ns - start_ns)
        }),
{
    law_shared_permits_are_paid(workers, start_ns, rate, limit, steps);
    lemma_minted(workers, start_ns, rate, limit, steps);
}

/// The refills bring no more than the time between the start and the last of them is worth.
proof fn lemma_minted(
    workers: nat,
    start_ns: u64,
    rate: nat,
    limit: u64,
    steps: Seq<PoolStep>,
)
    requires
        pool_run(workers, start_ns, rate, limit, steps) is Some,
    ensures
        ({
            let b = pool_run(workers, start_ns, rate, limit, steps)->0;
            b.last_ns >= start_ns && b.minted * NANOS_PER_SEC <= rate * (b.last_ns - start_ns)
        }),
    decreases steps.len(),
{
    if steps.len() == 0 {
        assert(rate * (start_ns - start_ns) == 0) by (nonlinear_arith);
    } else {
        lemma_minted(workers, start_ns, rate, limit, steps.drop_last());
        let b = pool_run(workers, start_ns, rate, limit, steps.drop_last())->0;
        if let PoolStep::Exchange { worker: _, refill } = steps.last() {
            if refill.last_ns == b.last_ns {
                assert(rate * (refill.now_ns - start_ns) == rate * (b.last_ns - start_ns) + rate
                    * (refill.now_ns - b.last_ns)) by (nonlinear_arith);
            }
        }
    }
}

/// The bucket after one worker, alone, looked at the clock and refilled.
pub open spec fn refilled_alone(
    b: Pool,
    worker: int,
    limit: u64,
    now_ns: u64,
    new_tokens: u64,
) -> Pool {
    match spec_refill_window(b.last_ns, now_ns) {
        Some(window) => match spec_refill_worth(window, new_tokens) {
            Some(refill) => pool_after(
                pool_after(b, PoolStep::Exchange { worker, refill }),
                PoolStep::Credit { worker, limit },
            ),
            None => b,
        },
        None => b,
    }
}

/// A refill by one worker alone adds its tokens up to the limit and sets the time of the last
/// refill to the present; it never takes tokens away. Where the clock stood still or went
/// back, or the time was worth nothing, the bucket stays as it is, and the time stays
/// creditable.
pub proof fn law_refill_alone(b: Pool, worker: int, limit: u64, now_ns: u64, new_tokens: u64)
    requires
        0 <= worker < b.hands.len(),
        b.hands[worker] is None,
        b.tokens <= limit,
    ensures
        now_ns > b.last_ns && new_tokens > 0 ==> {
            let after = refilled_alone(b, worker, limit, now_ns, new_tokens);
            &&& after.tokens == (if b.tokens + new_tokens > limit {
                limit as int
            } else {
                b.tokens + new_tokens
            })
            &&& b.tokens <= after.tokens <= limit
            &&& after.last_ns == now_ns
            &&& after.hands == b.hands
            &&& after.permits == b.permits
        },
        now_ns <= b.last_ns || new_tokens == 0 ==> refilled_alone(
            b,
            worker,
            limit,
            now_ns,
            new_tokens,
        ) == b,
{
    let hands = refilled_alone(b, worker, limit, now_ns, new_tokens).hands;
    assert(hands =~= b.hands);
}

/// A refill that lost the race for its time changes nothing in a bucket within its limit.
pub proof fn law_lost_refill_brings_nothing(b: Pool, worker: int, limit: u64, refill: Refill)
    requires
        0 <= worker < b.hands.len(),
        b.hands[worker] is None,
        b.tokens <= limit,
        refill.last_ns != b.last_ns,
    ensures
        pool_after(
            pool_after(b, PoolStep::Exchange { worker, refill }),
            PoolStep::Credit { worker, limit },
        ) == b,
{
    let after = pool_after(
        pool_after(b, PoolStep::Exchange { worker, refill }),
        PoolStep::Credit { worker, limit },
    );
    assert(after.hands =~= b.hands);
}

// ---------------------------------------------------------------------------
// What a worker's bucket does
// ---------------------------------------------------------------------------

/// A new controller has one token and nothing saved up. A tick brings exactly what it is
/// worth, 256 parts for each whole token and the fraction besides, whatever the rate; only
/// where that is nothing at a rate above zero, it brings one part. Bursts are limited to ten
/// ticks, and to one token at least. The rate is kept; below zero, or not a number, it is zero.
pub proof fn law_new_controller(
    rate: Float,
    tokens_per_tick: u32,
    frac_per_tick: u32,
    r: RateController,
    kept: Float,
)
    requires
        frac_per_tick < 256,
        call_ensures(RateController::new, (rate, tokens_per_tick, frac_per_tick), r),
        call_ensures(RateController::rate, (&r,), kept),
    ensures
        r@.tokens == 1,
        r@.parts == 0,
        256 * tokens_per_tick + frac_per_tick > 0 ==> r@.per_tick == 256 * tokens_per_tick
            + frac_per_tick,
        tokens_per_tick == 0 && frac_per_tick == 0 ==> r@.per_tick == (if 0 < rate.bits
            <= 0x7ff0_0000_0000_0000 {
            1nat
        } else {
            0nat
        }),
        tokens_per_tick == 0 ==> r@.limit == 1,
        0 < tokens_per_tick <= 429_496_729 ==> r@.limit == 10 * tokens_per_tick,
        tokens_per_tick > 429_496_729 ==> r@.limit == 0xffff_ffff,
        rate.bits <= 0x7ff0_0000_0000_0000 ==> kept.bits == rate.bits,
        rate.bits > 0x7ff0_0000_0000_0000 && rate.bits != 0x8000_0000_0000_0000 ==> kept.bits == 0,
{
    law_or_zero(rate, kept);
    law_positive(rate);
}

/// Taking a token grants just where there is one, and takes one then; nothing else changes.
pub proof fn law_take_one(c: &mut RateController, granted: bool)
    requires
        call_ensures(RateController::try_take, (c,), granted),
    ensures
        granted == (old(c)@.tokens > 0),
        old(c)@.tokens == final(c)@.tokens + (if granted {
            1int
        } else {
            0int
        }),
        final(c)@.parts == old(c)@.parts,
        final(c)@.per_tick == old(c)@.per_tick,
        final(c)@.limit == old(c)@.limit,
{
}

/// A tick adds what it brings, down to the last part, and then grants a permit where there is
/// a token. Whole tokens beyond the limit are dropped; the saved parts never are.
pub proof fn law_tick_adds_all(c: &mut RateController, granted: bool)
    requires
        call_ensures(RateController::tick, (c,), granted),
    ensures
        ({
            let whole_tokens = old(c)@.tokens + (old(c)@.parts + old(c)@.per_tick) / 256;
            &&& granted == (whole_tokens > 0)
            &&& final(c)@.parts == (old(c)@.parts + old(c)@.per_tick) % 256
            &&& final(c)@.tokens + (if granted {
                1int
            } else {
                0int
            }) == (if whole_tokens > old(c)@.limit {
                old(c)@.limit as int
            } else {
                whole_tokens as int
            })
        }),
        final(c)@.per_tick == old(c)@.per_tick,
        final(c)@.limit == old(c)@.limit,
{
}

/// Over any run of a new controller in which no tick overfills the bucket, permits and what is
/// left in the bucket make up the first token and, for every tick, all that it is worth.
pub proof fn law_new_controller_keeps_its_rate(
    rate: Float,
    tokens_per_tick: u32,
    frac_per_tick: u32,
    r: RateController,
    steps: Seq<BucketStep>,
)
    requires
        frac_per_tick < 256,
        256 * tokens_per_tick + frac_per_tick > 0,
        call_ensures(RateController::new, (rate, tokens_per_tick, frac_per_tick), r),
        !spills(r@, steps),
    ensures
        256 * permits(r@, steps) + 256 * bucket_run(r@, steps).tokens + bucket_run(
            r@,
            steps,
        ).parts == 256 + ticks(steps) * (256 * tokens_per_tick + frac_per_tick),
{
    law_permits_match_rate(r@, steps);
}

// ---------------------------------------------------------------------------
// What the operations on a shared bucket do
// ---------------------------------------------------------------------------

/// The window that is due spans all the time since the last refill, however long that is; there
/// is none where the clock stood still or went back.
pub proof fn law_window_spans_all_time(last_ns: u64, now_ns: u64, r: Option<RefillWindow>)
    requires
        call_ensures(refill_window, (last_ns, now_ns), r),
    ensures
        r is Some <==> now_ns > last_ns,
        r matches Some(window) ==> {
            &&& window.last_ns == last_ns
            &&& window.now_ns == now_ns
            &&& last_ns + window.elapsed_ns == now_ns
        },
{
}

/// The time of a list of windows together.
pub open spec fn spanned(windows: Seq<RefillWindow>) -> nat
    decreases windows.len(),
{
    if windows.len() == 0 {
        0
    } else {
        spanned(windows.drop_last()) + windows.last().elapsed_ns as nat
    }
}

/// Windows that follow each other leave no time out: together they span the time from the
/// start of the first to the end of the last.
pub proof fn law_windows_leave_no_time_out(windows: Seq<RefillWindow>)
    requires
        windows.len() > 0,
        forall|k: int|
            0 <= k < windows.len() ==> #[trigger] call_ensures(
                refill_window,
                (windows[k].last_ns, windows[k].now_ns),
                Some(windows[k]),
            ),
        forall|k: int|
            0 < k < windows.len() ==> (#[trigger] windows[k]).last_ns == windows[k - 1].now_ns,
    ensures
        windows[0].last_ns + spanned(windows) == windows.last().now_ns,
    decreases windows.len(),
{
    let last = windows.last();
    let k = windows.len() - 1;
    assert(call_ensures(refill_window, (windows[k].last_ns, windows[k].now_ns), Some(windows[k])));
    law_window_spans_all_time(last.last_ns, last.now_ns, Some(last));
    if windows.len() > 1 {
        let rest = windows.drop_last();
        assert forall|j: int| 0 <= j < rest.len() implies #[trigger] call_ensures(
            refill_window,
            (rest[j].last_ns, rest[j].now_ns),
            Some(rest[j]),
        ) by {
            assert(call_ensures(
                refill_window,
                (windows[j].last_ns, windows[j].now_ns),
                Some(windows[j]),
            ));
        }
        assert forall|j: int| 0 < j < rest.len() implies (#[trigger] rest[j]).last_ns == rest[j
            - 1].now_ns by {
            assert(windows[j].last_ns == windows[j - 1].now_ns);
        }
        law_windows_leave_no_time_out(rest);
        assert(windows[k].last_ns == windows[k - 1].now_ns);
    } else {
        assert(spanned(windows.drop_last()) == 0);
    }
}

/// A refill is worth while just where it brings tokens, and it keeps all of them and the two
/// times.
pub proof fn law_worth_keeps_the_tokens(window: RefillWindow, new_tokens: u64, r: Option<Refill>)
    requires
        call_ensures(refill_worth, (window, new_tokens), r),
    ensures
        r is Some <==> new_tokens > 0,
        r matches Some(refill) ==> {
            &&& refill.last_ns == window.last_ns
            &&& refill.now_ns == window.now_ns
            &&& refill.new_tokens == new_tokens
        },
{
}

/// Who exchanged the time has all tokens of the refill, and who did not has none.
pub proof fn law_brought_all_or_nothing(refill: Refill, exchanged: bool, r: u64)
    requires
        call_ensures(brought, (refill, exchanged), r),
    ensures
        exchanged ==> r == refill.new_tokens,
        !exchanged ==> r == 0,
{
}

/// A bucket has room for its bursts, and for one token at least.
pub proof fn law_room_for_bursts(burst: u64, r: u64)
    requires
        call_ensures(room, (burst,), r),
    ensures
        burst >= 1_000_000 ==> r == burst,
        burst < 1_000_000 ==> r == 1_000_000,
{
}

/// A credit adds all tokens that find room, and always happens.
pub proof fn law_credit_adds_what_fits(
    current: u64,
    new_tokens: u64,
    max_tokens: u64,
    r: Option<u64>,
)
    requires
        call_ensures(credit, (current, new_tokens, max_tokens), r),
    ensures
        r is Some,
        current + new_tokens <= max_tokens ==> r->0 == current + new_tokens,
        current + new_tokens > max_tokens ==> r->0 == max_tokens,
{
}

/// The pause is 10 microseconds at rates above ten thousand, 100 at rates above one thousand,
/// and 1000 otherwise. (The bit patterns are those of ten thousand and one thousand.)
pub proof fn law_pause_by_rate(rate: Float, r: u64)
    requires
        call_ensures(pause, (rate,), r),
    ensures
        0x40c3_8800_0000_0000 < rate.bits <= 0x7ff0_0000_0000_0000 ==> r == 10,
        0x408f_4000_0000_0000 < rate.bits <= 0x40c3_8800_0000_0000 ==> r == 100,
        rate.bits <= 0x408f_4000_0000_0000 || rate.bits > 0x7ff0_0000_0000_0000 ==> r == 1000,
{
    vstd::arithmetic::power2::lemma2_to64();
    vstd::arithmetic::power2::lemma2_to64_rest();
    lemma_whole(0x40c3_8800_0000_0000, 10000, 39);
    lemma_whole(0x408f_4000_0000_0000, 1000, 43);
    law_below(Float { bits: 0x40c3_8800_0000_0000 }, rate);
    law_below(Float { bits: 0x408f_4000_0000_0000 }, rate);
}

/// A worker that has read a whole token claims just one, and one that has not waits.
pub proof fn law_claim_takes_one(rate: Float, current: u64, r: Claim, micros: u64)
    requires
        call_ensures(claim, (rate, current), r),
        call_ensures(pause, (rate,), micros),
    ensures
        current >= 1_000_000 ==> r == (Claim::Exchange { next: (current - 1_000_000) as u64 }),
        current < 1_000_000 ==> r == (Claim::Wait { micros }),
{
}

/// A permit is granted just where a whole token was read and the exchange succeeded.
pub proof fn law_outcome_of_attempt(
    rate: Float,
    current: u64,
    exchanged: bool,
    r: Acquire,
    micros: u64,
)
    requires
        call_ensures(outcome, (rate, current, exchanged), r),
        call_ensures(pause, (rate,), micros),
    ensures
        current >= 1_000_000 && exchanged ==> r is Granted,
        current >= 1_000_000 && !exchanged ==> r is Contended,
        current < 1_000_000 ==> r == (Acquire::Wait { micros }),
{
}

/// Without a rate, workers wait a millisecond while the rate still rises, and go on otherwise.
pub proof fn law_without_rate(ramping: bool, r: Acquire)
    requires
        call_ensures(without_rate, (ramping,), r),
    ensures
        ramping ==> r == (Acquire::Wait { micros: 1000 }),
        !ramping ==> r is Granted,
{
}

/// A new bucket holds one token and is as last refilled at the given time.
proof fn law_new_bucket_holds_one_token(now_ns: u64, r: SharedBucket)
    requires
        call_ensures(SharedBucket::new, (now_ns,), r),
    ensures
        call_ensures(AtomicU64::new, (1_000_000,), r.tokens),
        call_ensures(AtomicU64::new, (now_ns,), r.last_refill_ns),
{
}

/// An attempt reads the tokens once. A permit is granted just where at least one token was read
/// and the number read was exchanged for one token less; with fewer, it is to wait.
proof fn law_attempt_takes_one_token(b: SharedBucket, rate: Float, r: Acquire, micros: u64)
    requires
        call_ensures(SharedBucket::try_take, (&b, rate), r),
        call_ensures(pause, (rate,), micros),
    ensures
        exists|current: u64| #[trigger]
            call_ensures(AtomicU64::load, (&b.tokens, Ordering::Relaxed), current) && (if current
                >= 1_000_000 {
                exists|exchanged: Result<u64, u64>| #[trigger]
                    call_ensures(
                        AtomicU64::compare_exchange_weak,
                        (
                            &b.tokens,
                            current,
                            one_token_less(current),
                            Ordering::Relaxed,
                            Ordering::Relaxed,
                        ),
                        exchanged,
                    ) && (exchanged is Ok ==> r is Granted) && (exchanged is Err
                        ==> r is Contended)
            } else {
                r == (Acquire::Wait { micros })
            }),
{
    let current = choose|current: u64|
        {
            &&& #[trigger] call_ensures(AtomicU64::load, (&b.tokens, Ordering::Relaxed), current)
            &&& if current >= TOKEN_SCALE {
                exists|exchanged: Result<u64, u64>|
                    {
                        &&& #[trigger] call_ensures(
                            AtomicU64::compare_exchange_weak,
                            (
                                &b.tokens,
                                current,
                                after_take(current),
                                Ordering::Relaxed,
                                Ordering::Relaxed,
                            ),
                            exchanged,
                        )
                        &&& r == spec_outcome(rate, current, exchanged is Ok)
                    }
            } else {
                r == spec_outcome(rate, current, false)
            }
        };
    assert(current >= 1_000_000 ==> after_take(current) == one_token_less(current));
}

/// A number of tokens with one token, in the unit of the bucket, taken away.
spec fn one_token_less(current: u64) -> u64 {
    (current - 1_000_000) as u64
}

/// The window that is due starts at the time of the last refill as it was read, and ends now.
proof fn law_due_since_last_refill(b: SharedBucket, now_ns: u64, r: Option<RefillWindow>)
    requires
        call_ensures(SharedBucket::refill_due, (&b, now_ns), r),
    ensures
        exists|last_ns: u64| #[trigger]
            call_ensures(AtomicU64::load, (&b.last_refill_ns, Ordering::Relaxed), last_ns) && (
            now_ns > last_ns <==> r is Some) && (r matches Some(window) ==> window.last_ns
                == last_ns && window.now_ns == now_ns && last_ns + window.elapsed_ns == now_ns),
{
    let last_ns = choose|last_ns: u64| #[trigger]
        b.last_refilled(last_ns) && r == spec_refill_window(last_ns, now_ns);
    assert(call_ensures(AtomicU64::load, (&b.last_refill_ns, Ordering::Relaxed), last_ns));
}

/// A refill exchanges the time of the last refill for the present. Where that succeeds, all its
/// tokens are credited up to the limit, and where it fails none.
proof fn law_refill_credits_after_exchange(
    b: SharedBucket,
    refill: Refill,
    limit: u64,
    credited: bool,
)
    requires
        call_ensures(SharedBucket::refill, (&b, refill, limit), credited),
    ensures
        exists|exchanged: Result<u64, u64>| #[trigger]
            call_ensures(
                AtomicU64::compare_exchange,
                (
                    &b.last_refill_ns,
                    refill.last_ns,
                    refill.now_ns,
                    Ordering::Relaxed,
                    Ordering::Relaxed,
                ),
                exchanged,
            ) && credited == exchanged is Ok,
        credited ==> call_ensures(credit_shared, (&b.tokens, refill.new_tokens, limit), ()),
        !credited ==> call_ensures(credit_shared, (&b.tokens, 0u64, limit), ()),
{
}

/// A new shared controller keeps its rate, has room for its bursts and for one token at least,
/// and starts with a new bucket. A rate of zero or below, or not a number, is unlimited.
proof fn law_new_shared_controller(
    rate: Float,
    burst: u64,
    now_ns: u64,
    r: SharedRateController,
    kept: Float,
    unlimited: bool,
)
    requires
        call_ensures(SharedRateController::new, (rate, burst, now_ns), r),
        call_ensures(SharedRateController::rate, (&r,), kept),
        call_ensures(SharedRateController::is_unlimited, (&r,), unlimited),
    ensures
        rate.bits <= 0x7ff0_0000_0000_0000 ==> kept.bits == rate.bits,
        rate.bits > 0x7ff0_0000_0000_0000 && rate.bits != 0x8000_0000_0000_0000 ==> kept.bits == 0,
        unlimited == !(0 < rate.bits <= 0x7ff0_0000_0000_0000),
        burst >= 1_000_000 ==> r.max_tokens == burst,
        burst < 1_000_000 ==> r.max_tokens == 1_000_000,
        call_ensures(AtomicU64::new, (1_000_000,), r.bucket.tokens),
        call_ensures(AtomicU64::new, (now_ns,), r.bucket.last_refill_ns),
{
    law_or_zero(rate, kept);
    law_positive(rate);
    law_positive(kept);
}

/// An unlimited controller grants every attempt; a limited one attempts on its bucket at its
/// rate.
proof fn law_shared_attempt(c: SharedRateController, r: Acquire, unlimited: bool, kept: Float)
    requires
        call_ensures(SharedRateController::try_acquire, (&c,), r),
        call_ensures(SharedRateController::is_unlimited, (&c,), unlimited),
        call_ensures(SharedRateController::rate, (&c,), kept),
    ensures
        unlimited ==> r is Granted,
        !unlimited ==> c.bucket.attempted(kept, r),
{
}

/// The refills of a shared controller are those of its bucket, up to its room.
proof fn law_shared_refill(
    c: SharedRateController,
    now_ns: u64,
    due: Option<RefillWindow>,
    refill: Refill,
    credited: bool,
)
    requires
        call_ensures(SharedRateController::refill_due, (&c, now_ns), due),
        call_ensures(SharedRateController::refill, (&c, refill), credited),
    ensures
        exists|last_ns: u64| #[trigger]
            call_ensures(AtomicU64::load, (&c.bucket.last_refill_ns, Ordering::Relaxed), last_ns)
                && (now_ns > last_ns <==> due is Some) && (due matches Some(window)
                ==> window.last_ns == last_ns && window.now_ns == now_ns && last_ns
                + window.elapsed_ns == now_ns),
        credited ==> call_ensures(
            credit_shared,
            (&c.bucket.tokens, refill.new_tokens, c.max_tokens),
            (),
        ),
        !credited ==> call_ensures(credit_shared, (&c.bucket.tokens, 0u64, c.max_tokens), ()),
{
    let last_ns = choose|last_ns: u64| #[trigger]
        c.bucket().last_refilled(last_ns) && due == spec_refill_window(last_ns, now_ns);
    assert(call_ensures(AtomicU64::load, (&c.bucket.last_refill_ns, Ordering::Relaxed), last_ns));
}

/// A controller with a changing rate starts at the given rate, and takes on the one that is
/// set; below zero, or not a number, it is zero. The end of the ramp is noted.
proof fn law_dynamic_rate_is_set(
    rate: Float,
    ramping: bool,
    now_ns: u64,
    r: DynamicRateController,
    c: DynamicRateController,
)
    requires
        call_ensures(DynamicRateController::new, (rate, ramping, now_ns), r),
        call_ensures(DynamicRateController::set_rate, (&c, rate), ()),
        call_ensures(DynamicRateController::end_ramp, (&c,), ()),
    ensures
        rate.bits <= 0x7ff0_0000_0000_0000 ==> call_ensures(
            AtomicU64::new,
            (rate.bits,),
            r.rate_bits,
        ) && call_ensures(AtomicU64::store, (&c.rate_bits, rate.bits, Ordering::SeqCst), ()),
        rate.bits > 0x7ff0_0000_0000_0000 && rate.bits != 0x8000_0000_0000_0000 ==> call_ensures(
            AtomicU64::new,
            (0,),
            r.rate_bits,
        ) && call_ensures(AtomicU64::store, (&c.rate_bits, 0, Ordering::SeqCst), ()),
        call_ensures(AtomicBool::new, (ramping,), r.ramping),
        call_ensures(AtomicBool::store, (&c.ramping, false, Ordering::SeqCst), ()),
        call_ensures(AtomicU64::new, (1_000_000,), r.bucket.tokens),
        call_ensures(AtomicU64::new, (now_ns,), r.bucket.last_refill_ns),
{
    law_or_zero(rate, rate.spec_or_zero());
}

/// An attempt at a changing rate goes by the rate and the ramp as they are read: at a rate above
/// zero it is one on the bucket at that rate; without a rate, workers wait while the rate still
/// rises and go on otherwise.
proof fn law_dynamic_attempt(c: DynamicRateController, r: Acquire)
    requires
        call_ensures(DynamicRateController::try_acquire, (&c,), r),
    ensures
        exists|ramping: bool, rate: Float|
            #[trigger] call_ensures(AtomicBool::load, (&c.ramping, Ordering::SeqCst), ramping)
                && #[trigger] c.rate_read(rate) && call_ensures(
                AtomicU64::load,
                (&c.rate_bits, Ordering::SeqCst),
                rate.bits,
            ) && (if 0 < rate.bits <= 0x7ff0_0000_0000_0000 {
                c.bucket.attempted(rate, r)
            } else if ramping {
                r == (Acquire::Wait { micros: 1000 })
            } else {
                r is Granted
            }),
{
    let (ramping, rate) = choose|ramping: bool, rate: Float| #[trigger]
        c.ramp_read(ramping) && #[trigger] c.rate_read(rate) && c.ends(rate, ramping, r);
    law_positive(rate);
    assert(call_ensures(AtomicBool::load, (&c.ramping, Ordering::SeqCst), ramping));
}

/// The refills at a changing rate are those of the bucket, up to the bursts that are given and
/// with room for one token at least. The rate that is read is the one that is stored.
proof fn law_dynamic_refill(
    c: DynamicRateController,
    now_ns: u64,
    due: Option<RefillWindow>,
    refill: Refill,
    burst: u64,
    credited: bool,
    rate: Float,
)
    requires
        call_ensures(DynamicRateController::refill_due, (&c, now_ns), due),
        call_ensures(DynamicRateController::refill, (&c, refill, burst), credited),
        call_ensures(DynamicRateController::rate, (&c,), rate),
    ensures
        exists|last_ns: u64| #[trigger]
            call_ensures(AtomicU64::load, (&c.bucket.last_refill_ns, Ordering::Relaxed), last_ns)
                && (now_ns > last_ns <==> due is Some) && (due matches Some(window)
                ==> window.last_ns == last_ns && window.now_ns == now_ns && last_ns
                + window.elapsed_ns == now_ns),
        call_ensures(
            credit_shared,
            (
                &c.bucket.tokens,
                if credited {
                    refill.new_tokens
                } else {
                    0
                },
                if burst >= 1_000_000 {
                    burst
                } else {
                    1_000_000
                },
            ),
            (),
        ),
        call_ensures(AtomicU64::load, (&c.rate_bits, Ordering::SeqCst), rate.bits),
{
    let last_ns = choose|last_ns: u64| #[trigger]
        c.bucket().last_refilled(last_ns) && due == spec_refill_window(last_ns, now_ns);
    assert(call_ensures(AtomicU64::load, (&c.bucket.last_refill_ns, Ordering::Relaxed), last_ns));
}

/// The total rate is reached: where every refill brings what its time is worth, rounded down,
/// the tokens in store and in workers' hands, those paid out as permits and those that found no
/// room make up all the time up to the last refill, but for one unit of the bucket per step.
pub proof fn law_shared_rate_is_reached(
    workers: nat,
    start_ns: u64,
    rate: nat,
    limit: u64,
    steps: Seq<PoolStep>,
)
    requires
        limit >= TOKEN_SCALE,
        pool_run(workers, start_ns, rate, limit, steps) is Some,
        forall|k: int|
            0 <= k < steps.len() ==> ((#[trigger] steps[k]) matches PoolStep::Exchange {
                worker: _,
                refill,
            } ==> (refill.new_tokens + 1) * 1_000_000_000 > rate * (refill.now_ns
                - refill.last_ns)),
    ensures
        ({
            let b = pool_run(workers, start_ns, rate, limit, steps)->0;
            (1_000_000 * b.permits + b.tokens + owed(b) + b.spilled + steps.len()) * 1_000_000_000
                >= 1_000_000 * 1_000_000_000 + rate * (b.last_ns - start_ns)
        }),
{
    law_shared_permits_are_paid(workers, start_ns, rate, limit, steps);
    lemma_minted_at_least(workers, start_ns, rate, limit, steps);
}

proof fn lemma_minted_at_least(
    workers: nat,
    start_ns: u64,
    rate: nat,
    limit: u64,
    steps: Seq<PoolStep>,
)
    requires
        pool_run(workers, start_ns, rate, limit, steps) is Some,
        forall|k: int|
            0 <= k < steps.len() ==> ((#[trigger] steps[k]) matches PoolStep::Exchange {
                worker: _,
                refill,
            } ==> (refill.new_tokens + 1) * 1_000_000_000 > rate * (refill.now_ns
                - refill.last_ns)),
    ensures
        ({
            let b = pool_run(workers, start_ns, rate, limit, steps)->0;
            (b.minted + steps.len()) * 1_000_000_000 >= rate * (b.last_ns - start_ns)
        }),
    decreases steps.len(),
{
    if steps.len() == 0 {
        assert(rate * (start_ns - start_ns) == 0) by (nonlinear_arith);
    } else {
        let rest = steps.drop_last();
        assert forall|k: int| 0 <= k < rest.len() implies ((#[trigger] rest[k]) matches
            PoolStep::Exchange { worker: _, refill } ==> (refill.new_tokens + 1) * 1_000_000_000
            > rate * (refill.now_ns - refill.last_ns)) by {
            assert(rest[k] == steps[k]);
        }
        lemma_minted_at_least(workers, start_ns, rate, limit, rest);
        let b = pool_run(workers, start_ns, rate, limit, rest)->0;
        assert(steps.last() == steps[steps.len() - 1]);
        if let PoolStep::Exchange { worker: _, refill } = steps.last() {
            if refill.last_ns == b.last_ns {
                assert(rate * (refill.now_ns - start_ns) == rate * (b.last_ns - start_ns) + rate
                    * (refill.now_ns - b.last_ns)) by (nonlinear_arith);
            }
        }
    }
}

} // verus!
