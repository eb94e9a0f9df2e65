//! Rate limiter implementation.
//!
//! Provides automatic rate limiting with token buckets: a global bucket of 120
//! requests per minute, one bucket of 60 requests per minute for each endpoint,
//! and the delays that the API itself imposes on an endpoint.
//!
//! Time is counted in nanoseconds on a monotonic clock. A bucket's tokens are kept
//! exactly, in units of one token per `window` nanoseconds (the bucket of `max`
//! tokens refills at `max` tokens per window), so no rounding ever occurs.

use crate::string_map::StringMap;
use std::time::{Duration, Instant};
use vstd::prelude::*;

verus! {

/// `std::time::Instant`, a reading of the monotonic clock.
#[verifier::external_type_specification]
#[verifier::external_body]
pub struct ExInstant(Instant);

/// `Instant::now`: the current reading of the monotonic clock. Nothing is stated of it.
#[verifier::external_body]
fn instant_now() -> Instant {
    Instant::now()
}

/// `Instant::elapsed`: the time since `origin`. Nothing is stated of it.
#[verifier::external_body]
fn elapsed_since(origin: &Instant) -> Duration {
    origin.elapsed()
}

/// `Duration::as_nanos`: a duration in whole nanoseconds. Nothing is stated of it.
#[verifier::external_body]
fn duration_nanos(d: &Duration) -> u128 {
    d.as_nanos()
}

/// Nanoseconds since `origin` (saturating at `u64::MAX`, some 584 years).
fn nanos_since(origin: &Instant) -> u64 {
    let d = elapsed_since(origin);
    let n = duration_nanos(&d);
    if n > u64::MAX as u128 {
        u64::MAX
    } else {
        n as u64
    }
}

/// Maximum delay threshold before throwing an error instead of waiting: the bit
/// pattern of five seconds.
pub const MAX_DELAY_THRESHOLD_BITS: u64 = 0x4014_0000_0000_0000;

/// Global rate limit: 120 requests per minute.
pub const GLOBAL_RATE_LIMIT: u32 = 120;

/// Per-endpoint rate limit: 60 requests per minute.
pub const ENDPOINT_RATE_LIMIT: u32 = 60;

/// Rate limit window duration: one minute, in nanoseconds.
pub const RATE_LIMIT_WINDOW_NANOS: u64 = 60_000_000_000;

/// A 32-bit count times a 64-bit count fits in 128 bits.
proof fn lemma_product_fits(a: u32, b: u64)
    ensures
        0 <= a as int * b as int <= u128::MAX,
{
    assert(0 <= a as int * b as int <= (u32::MAX as int) * (u64::MAX as int)) by (nonlinear_arith);
}

/// The state of a token bucket of `max` tokens that refills over `window`
/// nanoseconds: `scaled` is the number of tokens times `window`, `last` the time of
/// the last refill.
pub struct Bucket {
    pub max: nat,
    pub window: nat,
    pub scaled: nat,
    pub last: nat,
}

/// The bucket's capacity, in scaled units.
pub open spec fn capacity(b: Bucket) -> nat {
    b.max * b.window
}

/// The bucket refilled at time `now`: the time elapsed since the last refill (none
/// if the clock reads earlier) adds `max` scaled units per nanosecond, up to the
/// capacity.
pub open spec fn refill(b: Bucket, now: nat) -> Bucket {
    let elapsed: nat = if now >= b.last {
        (now - b.last) as nat
    } else {
        0
    };
    let filled = b.scaled + b.max * elapsed;
    Bucket {
        scaled: if filled < capacity(b) {
            filled
        } else {
            capacity(b)
        },
        last: now,
        ..b
    }
}

/// Taking a token at time `now`: after the refill, a whole token (one `window` of
/// scaled units) is taken if there is one, and there is no wait; otherwise the bucket
/// stays as refilled and the wait is the time until a whole token is there, rounded
/// up to the nanosecond.
pub open spec fn acquire(b: Bucket, now: nat) -> (Bucket, Option<nat>) {
    let r = refill(b, now);
    if r.scaled >= r.window {
        (Bucket { scaled: (r.scaled - r.window) as nat, ..r }, None)
    } else {
        (r, Some((((r.window - r.scaled) + r.max - 1) / r.max as int) as nat))
    }
}

/// Whole tokens available at time `now`.
pub open spec fn available(b: Bucket, now: nat) -> nat {
    let r = refill(b, now);
    if r.window == 0 {
        r.max
    } else {
        r.scaled / r.window
    }
}

/// `n` tokens taken one after another at time `now` are all granted without a wait.
pub open spec fn grants(b: Bucket, now: nat, n: nat) -> bool
    decreases n,
{
    if n == 0 {
        true
    } else {
        acquire(b, now).1 is None && grants(acquire(b, now).0, now, (n - 1) as nat)
    }
}

/// Refilling or taking a token never puts more than the capacity in a bucket.
pub proof fn law_within_capacity(b: Bucket, now: nat)
    requires
        b.scaled <= capacity(b),
    ensures
        refill(b, now).scaled <= capacity(refill(b, now)),
        acquire(b, now).0.scaled <= capacity(acquire(b, now).0),
        acquire(b, now).0.max == b.max && acquire(b, now).0.window == b.window,
{
}

/// After the wait that a refused request is given, a token is there: taking one at
/// any time at least that much later is granted.
pub proof fn law_wait_suffices(b: Bucket, now: nat, later: nat)
    requires
        b.max > 0,
        acquire(b, now).1 is Some,
        later >= now + acquire(b, now).1->0,
    ensures
        acquire(acquire(b, now).0, later).1 is None,
{
    let r = refill(b, now);
    let w = acquire(b, now).1->0;
    let missing = (r.window - r.scaled) as nat;
    assert(w == (missing + r.max - 1) / r.max as int);
    assert(r.max * w >= missing) by (nonlinear_arith)
        requires
            w == (missing + r.max - 1) / r.max as int,
            r.max >= 1,
    ;
    let elapsed = (later - now) as nat;
    assert(r.max * elapsed >= r.max * w) by (nonlinear_arith)
        requires
            elapsed >= w,
    ;
    assert(capacity(r) >= r.window) by (nonlinear_arith)
        requires
            r.max >= 1,
    ;
}

/// At a given time, a bucket grants exactly as many tokens in a row as it holds after
/// the refill.
pub proof fn law_grants_count(b: Bucket, now: nat, n: nat)
    requires
        b.window > 0,
    ensures
        grants(b, now, n) <==> n * b.window <= refill(b, now).scaled,
    decreases n,
{
    if n > 0 {
        let r = refill(b, now);
        let b2 = acquire(b, now).0;
        law_grants_count(b2, now, (n - 1) as nat);
        assert(grants(b, now, n) == (acquire(b, now).1 is None && grants(b2, now, (n - 1) as nat)));
        if r.scaled >= r.window {
            assert(b2.last == now);
            assert(b2.max * 0nat == 0) by (nonlinear_arith);
            assert(r.scaled <= capacity(r));
            assert(refill(b2, now).scaled == r.scaled - r.window);
            assert((n - 1) * b.window + b.window == n * b.window) by (nonlinear_arith);
        } else {
            assert(n * b.window >= b.window) by (nonlinear_arith)
                requires
                    n >= 1,
            ;
        }
    } else {
        assert(0nat * b.window == 0) by (nonlinear_arith);
    }
}

/// A full bucket grants its whole capacity in a row, and not one token more.
pub proof fn law_full_bucket_grants_max(b: Bucket, now: nat)
    requires
        b.window > 0,
        b.scaled == capacity(b),
    ensures
        grants(b, now, b.max),
        !grants(b, now, b.max + 1),
{
    law_grants_count(b, now, b.max);
    law_grants_count(b, now, b.max + 1);
    assert(refill(b, now).scaled == capacity(b)) by (nonlinear_arith)
        requires
            b.scaled == capacity(b),
            capacity(b) == b.max * b.window,
    ;
    assert((b.max + 1) * b.window > b.max * b.window) by (nonlinear_arith)
        requires
            b.window > 0,
    ;
}

/// The count of available tokens says whether taking one is granted.
pub proof fn law_available_matches_acquire(b: Bucket, now: nat)
    requires
        b.window > 0,
        b.max > 0,
    ensures
        (available(b, now) >= 1) <==> acquire(b, now).1 is None,
{
    let r = refill(b, now);
    if r.scaled >= r.window {
        assert(r.scaled / r.window >= 1) by (nonlinear_arith)
            requires
                r.scaled >= r.window,
                r.window > 0,
        ;
    } else {
        assert(r.scaled / r.window == 0) by (nonlinear_arith)
            requires
                r.scaled < r.window,
        ;
    }
}

/// A token bucket rate limiter.
#[derive(Debug)]
pub struct RateLimiter {
    /// Maximum number of tokens (requests) allowed.
    max_tokens: u32,
    /// The time in which an empty bucket refills, in nanoseconds.
    window_nanos: u64,
    /// Available tokens times `window_nanos`.
    scaled_tokens: u128,
    /// Time of the last refill, in nanoseconds since `origin`.
    last_refill: u64,
    /// The clock reading from which `last_refill` counts.
    origin: Instant,
}

impl RateLimiter {
    /// The bucket that this limiter holds.
    pub closed spec fn bucket(self) -> Bucket {
        Bucket {
            max: self.max_tokens as nat,
            window: self.window_nanos as nat,
            scaled: self.scaled_tokens as nat,
            last: self.last_refill as nat,
        }
    }

    #[verifier::type_invariant]
    closed spec fn within_capacity(self) -> bool {
        self.scaled_tokens <= self.max_tokens as int * self.window_nanos as int
    }

    /// Creates a new rate limiter with the specified capacity, full.
    pub fn new(max_requests: u32, window_nanos: u64) -> (res: Self)
        ensures
            res.bucket() == (Bucket {
                max: max_requests as nat,
                window: window_nanos as nat,
                scaled: max_requests as nat * window_nanos as nat,
                last: 0,
            }),
    {
        proof {
            lemma_product_fits(max_requests, window_nanos);
        }
        RateLimiter {
            max_tokens: max_requests,
            window_nanos,
            scaled_tokens: (max_requests as u128) * (window_nanos as u128),
            last_refill: 0,
            origin: instant_now(),
        }
    }

    /// Refills tokens based on elapsed time.
    fn refill_at(&mut self, now: u64)
        ensures
            final(self).bucket() == refill(old(self).bucket(), now as nat),
    {
        proof {
            use_type_invariant(&*self);
        }
        let elapsed: u64 = if now >= self.last_refill {
            now - self.last_refill
        } else {
            0
        };
        proof {
            lemma_product_fits(self.max_tokens, self.window_nanos);
            lemma_product_fits(self.max_tokens, elapsed);
        }
        let cap: u128 = (self.max_tokens as u128) * (self.window_nanos as u128);
        let room: u128 = cap - self.scaled_tokens;
        let add: u128 = (self.max_tokens as u128) * (elapsed as u128);
        let scaled = if add < room {
            self.scaled_tokens + add
        } else {
            cap
        };
        self.scaled_tokens = scaled;
        self.last_refill = now;
    }

    /// Attempts to acquire a token at time `now` (nanoseconds on this limiter's
    /// clock). Returns the wait time, in nanoseconds, if no token is available.
    pub fn try_acquire_at(&mut self, now: u64) -> (res: Option<u64>)
        requires
            old(self).bucket().max > 0,
        ensures
            (final(self).bucket(), match res {
                Some(w) => Some(w as nat),
                None => None,
            }) == acquire(old(self).bucket(), now as nat),
    {
        self.refill_at(now);
        proof {
            use_type_invariant(&*self);
        }
        if self.scaled_tokens >= self.window_nanos as u128 {
            self.scaled_tokens = self.scaled_tokens - self.window_nanos as u128;
            None
        } else {
            let missing: u128 = (self.window_nanos as u128) - self.scaled_tokens;
            let max: u128 = self.max_tokens as u128;
            let wait: u128 = (missing + max - 1) / max;
            assert(wait <= missing) by (nonlinear_arith)
                requires
                    wait == (missing + max - 1) as int / max as int,
                    max >= 1,
                    missing >= 1,
            ;
            Some(wait as u64)
        }
    }

    /// Attempts to acquire a token. Returns the wait time, in nanoseconds, if no
    /// token is available. What it returns depends on the time; it is
    /// [`RateLimiter::try_acquire_at`] at the current reading of the clock, taken no
    /// earlier than the last refill, so the limiter's time never goes back.
    pub fn try_acquire(&mut self) -> (res: Option<u64>)
        requires
            old(self).bucket().max > 0,
        ensures
            final(self).bucket().last >= old(self).bucket().last,
            (final(self).bucket(), match res {
                Some(w) => Some(w as nat),
                None => None,
            }) == acquire(old(self).bucket(), final(self).bucket().last),
    {
        let reading = nanos_since(&self.origin);
        let now = if reading < self.last_refill {
            self.last_refill
        } else {
            reading
        };
        self.try_acquire_at(now)
    }

    /// Returns the number of whole tokens available at time `now`.
    pub fn available_tokens_at(&mut self, now: u64) -> (res: u32)
        ensures
            res == available(old(self).bucket(), now as nat),
            final(self).bucket() == refill(old(self).bucket(), now as nat),
            res <= old(self).bucket().max,
    {
        self.refill_at(now);
        proof {
            use_type_invariant(&*self);
        }
        if self.window_nanos == 0 {
            self.max_tokens
        } else {
            let w: u128 = self.window_nanos as u128;
            let t: u128 = self.scaled_tokens / w;
            assert(t <= self.max_tokens) by (nonlinear_arith)
                requires
                    t == self.scaled_tokens / w,
                    self.scaled_tokens <= self.max_tokens as int * w,
                    w > 0,
            ;
            t as u32
        }
    }

    /// Returns the current number of available tokens; it is
    /// [`RateLimiter::available_tokens_at`] at the current reading of the clock, taken
    /// no earlier than the last refill, so the limiter's time never goes back.
    pub fn available_tokens(&mut self) -> (res: u32)
        ensures
            final(self).bucket().last >= old(self).bucket().last,
            res == available(old(self).bucket(), final(self).bucket().last),
            final(self).bucket() == refill(old(self).bucket(), final(self).bucket().last),
            res <= old(self).bucket().max,
    {
        let reading = nanos_since(&self.origin);
        let now = if reading < self.last_refill {
            self.last_refill
        } else {
            reading
        };
        self.available_tokens_at(now)
    }
}

} // verus!

verus! {

/// What a rate limiter manager holds: the global bucket, the bucket of each endpoint
/// that has been used, and the times until which the API has limited endpoints.
pub struct LimitsView {
    pub global: Bucket,
    pub endpoints: Map<Seq<char>, Bucket>,
    pub active: Map<Seq<char>, nat>,
}

/// The bucket that an endpoint starts with: full, 60 requests per minute.
pub open spec fn fresh_endpoint_bucket() -> Bucket {
    Bucket {
        max: ENDPOINT_RATE_LIMIT as nat,
        window: RATE_LIMIT_WINDOW_NANOS as nat,
        scaled: ENDPOINT_RATE_LIMIT as nat * RATE_LIMIT_WINDOW_NANOS as nat,
        last: 0,
    }
}

/// The limits of a new manager: a full global bucket of 120 requests per minute,
/// no endpoint buckets yet and no limits set by the API.
pub open spec fn fresh_limits() -> LimitsView {
    LimitsView {
        global: Bucket {
            max: GLOBAL_RATE_LIMIT as nat,
            window: RATE_LIMIT_WINDOW_NANOS as nat,
            scaled: GLOBAL_RATE_LIMIT as nat * RATE_LIMIT_WINDOW_NANOS as nat,
            last: 0,
        },
        endpoints: Map::empty(),
        active: Map::empty(),
    }
}

/// The check made before a request to endpoint `e` at time `now`: a limit that the
/// API set for the endpoint and that has not run out gives the time left, and nothing
/// changes; otherwise the global bucket is asked for a token, and if it gives one,
/// the endpoint's bucket (a fresh one the first time) is asked too. The result is the
/// wait that the first refusal gives, or none.
pub open spec fn check_step(v: LimitsView, e: Seq<char>, now: nat) -> (LimitsView, Option<nat>) {
    if v.active.contains_key(e) && v.active[e] > now {
        (v, Some((v.active[e] - now) as nat))
    } else {
        let (g, gw) = acquire(v.global, now);
        if gw is Some {
            (LimitsView { global: g, ..v }, gw)
        } else {
            let eb = if v.endpoints.contains_key(e) {
                v.endpoints[e]
            } else {
                fresh_endpoint_bucket()
            };
            let (eb2, ew) = acquire(eb, now);
            (LimitsView { global: g, endpoints: v.endpoints.insert(e, eb2), ..v }, ew)
        }
    }
}

/// Recording that the API limited endpoint `e` at time `now` for `delay` nanoseconds
/// (the end saturates at the largest time).
pub open spec fn record_step(v: LimitsView, e: Seq<char>, delay: nat, now: nat) -> LimitsView {
    let until = if now + delay <= u64::MAX {
        now + delay
    } else {
        u64::MAX as nat
    };
    LimitsView { active: v.active.insert(e, until), ..v }
}

/// Clearing the limit that the API set for endpoint `e`.
pub open spec fn clear_step(v: LimitsView, e: Seq<char>) -> LimitsView {
    LimitsView { active: v.active.remove(e), ..v }
}

/// While a limit that the API set for an endpoint runs, a check for it answers with
/// the time left and changes nothing.
pub proof fn law_recorded_limit_blocks(v: LimitsView, e: Seq<char>, delay: nat, now: nat, later: nat)
    requires
        now + delay <= u64::MAX,
        now <= later < now + delay,
    ensures
        check_step(record_step(v, e, delay, now), e, later) == (
            record_step(v, e, delay, now),
            Some((now + delay - later) as nat),
        ),
{
}

/// Once cleared, an endpoint's limit no longer answers a check: the check goes to the
/// token buckets.
pub proof fn law_cleared_limit_is_gone(v: LimitsView, e: Seq<char>, now: nat)
    ensures
        !clear_step(v, e).active.contains_key(e),
        check_step(clear_step(v, e), e, now).1 == (if acquire(v.global, now).1 is Some {
            acquire(v.global, now).1
        } else {
            acquire(
                if v.endpoints.contains_key(e) {
                    v.endpoints[e]
                } else {
                    fresh_endpoint_bucket()
                },
                now,
            ).1
        }),
{
}

/// Recording or clearing a limit for one endpoint leaves the limits of the others,
/// and all buckets, as they were.
pub proof fn law_limits_are_per_endpoint(
    v: LimitsView,
    e: Seq<char>,
    other: Seq<char>,
    delay: nat,
    now: nat,
)
    requires
        e != other,
    ensures
        record_step(v, e, delay, now).active.contains_key(other) == v.active.contains_key(other),
        record_step(v, e, delay, now).active[other] == v.active[other],
        clear_step(v, e).active.contains_key(other) == v.active.contains_key(other),
        clear_step(v, e).active[other] == v.active[other],
        record_step(v, e, delay, now).global == v.global,
        record_step(v, e, delay, now).endpoints == v.endpoints,
        clear_step(v, e).global == v.global,
        clear_step(v, e).endpoints == v.endpoints,
{
}

/// Checks made one after the other from the limits `v`, each of an endpoint at a
/// time: the limits after them, and the answer to each.
pub open spec fn run_checks(v: LimitsView, calls: Seq<(Seq<char>, nat)>) -> (
    LimitsView,
    Seq<Option<nat>>,
)
    decreases calls.len(),
{
    if calls.len() == 0 {
        (v, Seq::empty())
    } else {
        let before = run_checks(v, calls.drop_last());
        let step = check_step(before.0, calls.last().0, calls.last().1);
        (step.0, before.1.push(step.1))
    }
}

/// How many of the answers let a request to endpoint `e` through.
pub open spec fn granted_to(
    calls: Seq<(Seq<char>, nat)>,
    answers: Seq<Option<nat>>,
    e: Seq<char>,
) -> nat
    decreases calls.len(),
{
    if calls.len() == 0 || answers.len() == 0 {
        0
    } else {
        granted_to(calls.drop_last(), answers.drop_last(), e) + if calls.last().0 == e
            && answers.last() is None {
            1nat
        } else {
            0nat
        }
    }
}

/// How many of the answers let a request through.
pub open spec fn granted(answers: Seq<Option<nat>>) -> nat
    decreases answers.len(),
{
    if answers.len() == 0 {
        0
    } else {
        granted(answers.drop_last()) + if answers.last() is None {
            1nat
        } else {
            0nat
        }
    }
}

/// The times of the checks never go back, and none is later than `limit`.
pub open spec fn in_order_within(calls: Seq<(Seq<char>, nat)>, limit: nat) -> bool {
    &&& forall|i: int, j: int| 0 <= i <= j < calls.len() ==> #[trigger] calls[i].1 <= #[trigger] calls[j].1
    &&& forall|i: int| 0 <= i < calls.len() ==> #[trigger] calls[i].1 <= limit
}

/// The time of the last check, zero before any.
pub open spec fn last_time(calls: Seq<(Seq<char>, nat)>) -> nat {
    if calls.len() == 0 {
        0
    } else {
        calls.last().1
    }
}

/// A bucket of `max` tokens per minute that started full at time zero, has let `n`
/// requests through and was last refilled at a time no later than `t`: the tokens
/// it holds and those it let through are at most the capacity and what the time
/// since the start can have added.
pub open spec fn within_budget(b: Bucket, max: nat, n: nat, t: nat) -> bool {
    &&& b.max == max
    &&& b.window == RATE_LIMIT_WINDOW_NANOS as nat
    &&& b.last <= t
    &&& b.scaled + n * (RATE_LIMIT_WINDOW_NANOS as nat) <= max * (RATE_LIMIT_WINDOW_NANOS as nat)
        + max * b.last
}

/// The limits after checks from a new manager, with no limit recorded, keep every
/// bucket within its budget.
pub open spec fn limits_within_budget(
    v: LimitsView,
    calls: Seq<(Seq<char>, nat)>,
    answers: Seq<Option<nat>>,
    t: nat,
) -> bool {
    &&& v.active == Map::<Seq<char>, nat>::empty()
    &&& within_budget(v.global, GLOBAL_RATE_LIMIT as nat, granted(answers), t)
    &&& forall|e: Seq<char>| #[trigger]
        v.endpoints.contains_key(e) ==> within_budget(
            v.endpoints[e],
            ENDPOINT_RATE_LIMIT as nat,
            granted_to(calls, answers, e),
            t,
        )
    &&& forall|e: Seq<char>|
        !v.endpoints.contains_key(e) ==> #[trigger] granted_to(calls, answers, e) == 0
}

/// Taking a token at a time no earlier than the last refill keeps a bucket within
/// its budget, counting the token if one was given.
proof fn lemma_acquire_within_budget(b: Bucket, max: nat, n: nat, t: nat, now: nat)
    requires
        within_budget(b, max, n, t),
        t <= now,
    ensures
        within_budget(
            acquire(b, now).0,
            max,
            if acquire(b, now).1 is None {
                n + 1
            } else {
                n
            },
            now,
        ),
{
    let r = refill(b, now);
    assert(r.scaled <= b.scaled + b.max * ((now - b.last) as nat));
    assert(max * b.last + max * ((now - b.last) as nat) == max * now) by (nonlinear_arith)
        requires
            b.last <= now,
    ;
}

/// Answers and limits of a series of checks, and the budget they keep.
proof fn lemma_run_within_budget(calls: Seq<(Seq<char>, nat)>)
    requires
        forall|i: int, j: int| 0 <= i <= j < calls.len() ==> #[trigger] calls[i].1 <= #[trigger] calls[j].1,
    ensures
        run_checks(fresh_limits(), calls).1.len() == calls.len(),
        limits_within_budget(
            run_checks(fresh_limits(), calls).0,
            calls,
            run_checks(fresh_limits(), calls).1,
            last_time(calls),
        ),
    decreases calls.len(),
{
    let w = RATE_LIMIT_WINDOW_NANOS as nat;
    if calls.len() == 0 {
        let v = fresh_limits();
        assert forall|e: Seq<char>| !v.endpoints.contains_key(e) implies #[trigger] granted_to(
            calls,
            Seq::<Option<nat>>::empty(),
            e,
        ) == 0 by {}
        assert(granted(Seq::<Option<nat>>::empty()) == 0);
    } else {
        let pre = calls.drop_last();
        assert forall|i: int, j: int| 0 <= i <= j < pre.len() implies #[trigger] pre[i].1
            <= #[trigger] pre[j].1 by {
            assert(pre[i] == calls[i] && pre[j] == calls[j]);
        }
        lemma_run_within_budget(pre);
        let before = run_checks(fresh_limits(), pre);
        let v = before.0;
        let e0 = calls.last().0;
        let now = calls.last().1;
        let t0 = last_time(pre);
        if pre.len() > 0 {
            assert(pre.last() == calls[pre.len() - 1]);
            assert(calls[pre.len() - 1].1 <= calls[calls.len() - 1].1);
        }
        assert(t0 <= now);
        let step = check_step(v, e0, now);
        let answers = before.1.push(step.1);
        assert(run_checks(fresh_limits(), calls) == (step.0, answers));
        assert(answers.drop_last() =~= before.1);
        assert(granted(answers) == granted(before.1) + if step.1 is None {
            1nat
        } else {
            0nat
        });
        assert forall|e: Seq<char>|
            granted_to(calls, answers, e) == granted_to(pre, before.1, e) + if e == e0
                && step.1 is None {
                1nat
            } else {
                0nat
            } by {}
        assert(!v.active.contains_key(e0));
        let (g, gw) = acquire(v.global, now);
        lemma_acquire_within_budget(v.global, GLOBAL_RATE_LIMIT as nat, granted(before.1), t0, now);
        if gw is Some {
            assert(step.1 == gw);
            assert forall|e: Seq<char>| #[trigger]
                step.0.endpoints.contains_key(e) implies within_budget(
                step.0.endpoints[e],
                ENDPOINT_RATE_LIMIT as nat,
                granted_to(calls, answers, e),
                now,
            ) by {
                assert(v.endpoints.contains_key(e));
                assert(within_budget(
                    v.endpoints[e],
                    ENDPOINT_RATE_LIMIT as nat,
                    granted_to(pre, before.1, e),
                    t0,
                ));
            }
            assert forall|e: Seq<char>| !step.0.endpoints.contains_key(e) implies #[trigger] granted_to(
                calls,
                answers,
                e,
            ) == 0 by {
                assert(granted_to(pre, before.1, e) == 0);
            }
        } else {
            let eb = if v.endpoints.contains_key(e0) {
                v.endpoints[e0]
            } else {
                fresh_endpoint_bucket()
            };
            assert(within_budget(eb, ENDPOINT_RATE_LIMIT as nat, granted_to(pre, before.1, e0), t0))
                by {
                if !v.endpoints.contains_key(e0) {
                    assert(granted_to(pre, before.1, e0) == 0);
                }
            }
            lemma_acquire_within_budget(
                eb,
                ENDPOINT_RATE_LIMIT as nat,
                granted_to(pre, before.1, e0),
                t0,
                now,
            );
            let (eb2, ew) = acquire(eb, now);
            assert(step.1 == ew);
            assert(step.0.endpoints == v.endpoints.insert(e0, eb2));
            assert forall|e: Seq<char>| #[trigger]
                step.0.endpoints.contains_key(e) implies within_budget(
                step.0.endpoints[e],
                ENDPOINT_RATE_LIMIT as nat,
                granted_to(calls, answers, e),
                now,
            ) by {
                if e != e0 {
                    assert(v.endpoints.contains_key(e));
                    assert(within_budget(
                        v.endpoints[e],
                        ENDPOINT_RATE_LIMIT as nat,
                        granted_to(pre, before.1, e),
                        t0,
                    ));
                }
            }
            assert forall|e: Seq<char>| !step.0.endpoints.contains_key(e) implies #[trigger] granted_to(
                calls,
                answers,
                e,
            ) == 0 by {
                assert(granted_to(pre, before.1, e) == 0);
            }
        }
    }
}

/// The per-minute limits hold over any series of checks made by a new manager
/// within 400 milliseconds of its start, with no limit recorded from the API and a
/// clock that never goes back: at most 120 requests are let through in all, and at
/// most 60 to each endpoint.
pub proof fn law_checks_within_rate_limits(calls: Seq<(Seq<char>, nat)>)
    requires
        in_order_within(calls, 400_000_000),
    ensures
        granted(run_checks(fresh_limits(), calls).1) <= GLOBAL_RATE_LIMIT,
        forall|e: Seq<char>| #[trigger]
            granted_to(calls, run_checks(fresh_limits(), calls).1, e) <= ENDPOINT_RATE_LIMIT,
{
    lemma_run_within_budget(calls);
    let r = run_checks(fresh_limits(), calls);
    let t = last_time(calls);
    if calls.len() > 0 {
        assert(calls[calls.len() - 1].1 <= 400_000_000);
    }
    assert(t <= 400_000_000);
    assert forall|e: Seq<char>| #[trigger]
        granted_to(calls, r.1, e) <= ENDPOINT_RATE_LIMIT by {
        if r.0.endpoints.contains_key(e) {
            assert(within_budget(r.0.endpoints[e], ENDPOINT_RATE_LIMIT as nat, granted_to(calls, r.1, e), t));
        }
    }
}

/// The answers to the first `k` checks of a series do not depend on the later ones.
proof fn lemma_run_prefix(v: LimitsView, calls: Seq<(Seq<char>, nat)>, k: int)
    requires
        0 <= k <= calls.len(),
    ensures
        run_checks(v, calls).1.len() == calls.len(),
        run_checks(v, calls.take(k)).1 == run_checks(v, calls).1.take(k),
    decreases calls.len(),
{
    if calls.len() == 0 {
        assert(calls.take(k) =~= calls);
        assert(run_checks(v, calls).1.take(k) =~= run_checks(v, calls).1);
    } else {
        lemma_run_prefix(v, calls.drop_last(), if k == calls.len() {
            0
        } else {
            k
        });
        if k == calls.len() {
            assert(calls.take(k) =~= calls);
            assert(run_checks(v, calls).1.take(k) =~= run_checks(v, calls).1);
        } else {
            assert(calls.take(k) =~= calls.drop_last().take(k));
            assert(run_checks(v, calls).1.take(k) =~= run_checks(v, calls.drop_last()).1.take(k));
        }
    }
}

/// Refilling a bucket that holds at most its capacity never takes tokens away.
proof fn lemma_refill_keeps(b: Bucket, now: nat)
    requires
        b.scaled <= capacity(b),
    ensures
        refill(b, now).scaled >= b.scaled,
        refill(b, now).scaled <= capacity(b),
{
}

/// The first `k <= 60` checks of one endpoint, at any times, are all let through by
/// a new manager, and leave both buckets with the tokens that were not taken.
proof fn lemma_first_sixty(calls: Seq<(Seq<char>, nat)>, e: Seq<char>, k: int)
    requires
        0 <= k <= 60,
        k <= calls.len(),
        forall|i: int| 0 <= i < calls.len() ==> (#[trigger] calls[i]).0 == e,
    ensures
        ({
            let r = run_checks(fresh_limits(), calls.take(k));
            &&& r.1.len() == k
            &&& forall|i: int| 0 <= i < k ==> r.1[i] is None
            &&& r.0.active == Map::<Seq<char>, nat>::empty()
            &&& r.0.global.max == GLOBAL_RATE_LIMIT
            &&& r.0.global.window == RATE_LIMIT_WINDOW_NANOS
            &&& r.0.global.scaled <= capacity(r.0.global)
            &&& r.0.global.scaled >= (GLOBAL_RATE_LIMIT - k) * RATE_LIMIT_WINDOW_NANOS
            &&& (k == 0 ==> !r.0.endpoints.contains_key(e))
            &&& (k > 0 ==> r.0.endpoints.contains_key(e) && r.0.endpoints[e].max
                == ENDPOINT_RATE_LIMIT && r.0.endpoints[e].window == RATE_LIMIT_WINDOW_NANOS
                && r.0.endpoints[e].scaled <= capacity(r.0.endpoints[e])
                && r.0.endpoints[e].scaled >= (ENDPOINT_RATE_LIMIT - k)
                * RATE_LIMIT_WINDOW_NANOS)
        }),
    decreases k,
{
    if k == 0 {
        assert(calls.take(0) =~= Seq::<(Seq<char>, nat)>::empty());
    } else {
        lemma_first_sixty(calls, e, k - 1);
        let pre = calls.take(k - 1);
        assert(calls.take(k).drop_last() =~= pre);
        assert(calls.take(k).last() == calls[k - 1]);
        let before = run_checks(fresh_limits(), pre);
        let v = before.0;
        let now = calls[k - 1].1;
        lemma_refill_keeps(v.global, now);
        let eb = if v.endpoints.contains_key(e) {
            v.endpoints[e]
        } else {
            fresh_endpoint_bucket()
        };
        lemma_refill_keeps(eb, now);
        let r = run_checks(fresh_limits(), calls.take(k));
        assert(r.1 =~= before.1.push(None::<nat>));
    }
}

/// A new manager lets exactly the first 60 checks of one endpoint through when
/// they are made within 400 milliseconds of its start on a clock that never goes
/// back, and answers the 61st with a wait of at least a nanosecond.
#[verifier::spinoff_prover]
pub proof fn law_sixty_per_endpoint(calls: Seq<(Seq<char>, nat)>, e: Seq<char>)
    requires
        in_order_within(calls, 400_000_000),
        calls.len() > ENDPOINT_RATE_LIMIT,
        forall|i: int| 0 <= i < calls.len() ==> (#[trigger] calls[i]).0 == e,
    ensures
        forall|i: int|
            0 <= i < ENDPOINT_RATE_LIMIT ==> (#[trigger] run_checks(fresh_limits(), calls).1[i])
                is None,
        run_checks(fresh_limits(), calls).1[ENDPOINT_RATE_LIMIT as int] matches Some(d) && d > 0,
{
    let all = run_checks(fresh_limits(), calls).1;
    lemma_first_sixty(calls, e, 60);
    lemma_run_prefix(fresh_limits(), calls, 60);
    lemma_run_prefix(fresh_limits(), calls, 61);
    let pre = calls.take(60);
    assert forall|i: int| 0 <= i < 60 implies (#[trigger] all[i]) is None by {
        assert(all.take(60)[i] == all[i]);
    }
    assert forall|i: int, j: int| 0 <= i <= j < pre.len() implies #[trigger] pre[i].1
        <= #[trigger] pre[j].1 by {
        assert(pre[i] == calls[i] && pre[j] == calls[j]);
    }
    lemma_run_within_budget(pre);
    let before = run_checks(fresh_limits(), pre);
    let v = before.0;
    let now = calls[60].1;
    assert(calls[59].1 <= calls[60].1);
    assert(now <= 400_000_000);
    assert(last_time(pre) == calls[59].1);
    assert(granted(before.1) >= 0);
    assert(granted_to(pre, before.1, e) == 60) by {
        lemma_granted_all(pre, before.1, e);
    }
    let eb = v.endpoints[e];
    assert(within_budget(eb, ENDPOINT_RATE_LIMIT as nat, 60, calls[59].1));
    lemma_refill_keeps(v.global, now);
    let s61 = calls.take(61);
    assert(s61.drop_last() =~= pre);
    assert(s61.last() == calls[60]);
    let r = run_checks(fresh_limits(), s61);
    assert(all.take(61)[60] == all[60]);
    assert(r.1[60] == check_step(v, e, now).1);
    assert(!v.active.contains_key(e));
    assert(acquire(v.global, now).1 is None);
    assert(v.endpoints.contains_key(e));
    let er = refill(eb, now);
    assert(er.scaled <= eb.scaled + 60 * ((now - eb.last) as nat));
    assert(eb.scaled <= 60 * eb.last);
    assert(eb.last <= now);
    assert(60 * eb.last + 60 * ((now - eb.last) as nat) == 60 * now);
    assert(er.scaled <= 60 * now);
    assert(er.scaled < er.window);
    assert(er.max == 60);
    let d = ((er.window - er.scaled) + er.max - 1) / er.max as int;
    assert(d == ((er.window - er.scaled) + 59) / 60);
    assert(d >= 1);
    assert(acquire(eb, now).1 == Some(d as nat));
}

/// Where every check is of `e` and every answer let the request through, all of
/// them count for `e`.
proof fn lemma_granted_all(calls: Seq<(Seq<char>, nat)>, answers: Seq<Option<nat>>, e: Seq<char>)
    requires
        answers.len() == calls.len(),
        forall|i: int| 0 <= i < calls.len() ==> (#[trigger] calls[i]).0 == e,
        forall|i: int| 0 <= i < answers.len() ==> (#[trigger] answers[i]) is None,
    ensures
        granted_to(calls, answers, e) == calls.len(),
    decreases calls.len(),
{
    if calls.len() > 0 {
        let c = calls.drop_last();
        let a = answers.drop_last();
        assert forall|i: int| 0 <= i < c.len() implies (#[trigger] c[i]).0 == e by {
            assert(c[i] == calls[i]);
        }
        assert forall|i: int| 0 <= i < a.len() implies (#[trigger] a[i]) is None by {
            assert(a[i] == answers[i]);
        }
        lemma_granted_all(c, a, e);
        assert(calls.last() == calls[calls.len() - 1]);
        assert(answers.last() == answers[answers.len() - 1]);
    }
}

/// Manages rate limiters for multiple endpoints.
pub struct RateLimiterManager {
    /// Global rate limiter.
    global: RateLimiter,
    /// Per-endpoint rate limiters.
    endpoints: StringMap<RateLimiter>,
    /// Currently active rate limits from API responses: until when, in nanoseconds
    /// since `origin`.
    active_limits: StringMap<u64>,
    /// The clock reading from which times count.
    origin: Instant,
    /// The latest time the manager has used, in nanoseconds since `origin`.
    latest: u64,
    /// The checks made so far, each of an endpoint at a time.
    history: Ghost<Seq<(Seq<char>, nat)>>,
    /// The answers to those checks.
    answered: Ghost<Seq<Option<nat>>>,
    /// Whether only checks have been made, at times that never went back.
    checks_only: Ghost<bool>,
}

/// The times of the checks never go back.
pub open spec fn times_in_order(calls: Seq<(Seq<char>, nat)>) -> bool {
    forall|i: int, j: int| 0 <= i <= j < calls.len() ==> #[trigger] calls[i].1 <= #[trigger] calls[j].1
}

/// An answer by its number of nanoseconds.
pub open spec fn wait_view(w: Option<u64>) -> Option<nat> {
    match w {
        Some(n) => Some(n as nat),
        None => None,
    }
}

impl RateLimiterManager {
    /// The limits that the manager holds.
    pub closed spec fn limits(self) -> LimitsView {
        LimitsView {
            global: self.global.bucket(),
            endpoints: self.endpoints@.map_values(|l: RateLimiter| l.bucket()),
            active: self.active_limits@.map_values(|u: u64| u as nat),
        }
    }

    /// The latest time the manager has used, in nanoseconds since its creation.
    pub closed spec fn reading(self) -> nat {
        self.latest as nat
    }

    /// The checks made so far, each of an endpoint at a time.
    pub closed spec fn checks(self) -> Seq<(Seq<char>, nat)> {
        self.history@
    }

    /// The answers to those checks.
    pub closed spec fn answers(self) -> Seq<Option<nat>> {
        self.answered@
    }

    /// Whether only checks have been made since the manager's creation (no limit
    /// recorded or cleared), at times that never went back.
    pub closed spec fn only_checks(self) -> bool {
        self.checks_only@
    }

    /// Each bucket has its rate: 120 requests per minute for the global bucket, 60 for
    /// each endpoint.
    closed spec fn rates(self) -> bool {
        &&& self.global.bucket().max == GLOBAL_RATE_LIMIT
        &&& self.global.bucket().window == RATE_LIMIT_WINDOW_NANOS
        &&& forall|k: Seq<char>| #[trigger]
            self.endpoints@.contains_key(k) ==> self.endpoints@[k].bucket().max
                == ENDPOINT_RATE_LIMIT && self.endpoints@[k].bucket().window
                == RATE_LIMIT_WINDOW_NANOS
    }

    /// Each bucket has its rate; and while only checks have been made, the limits and
    /// answers are those of the checks made one after the other from a new manager,
    /// in order of time and no later than the latest reading.
    pub closed spec fn wf(self) -> bool {
        &&& self.rates()
        &&& self.checks_only@ ==> {
            &&& run_checks(fresh_limits(), self.history@) == (self.limits(), self.answered@)
            &&& times_in_order(self.history@)
            &&& forall|i: int|
                0 <= i < self.history@.len() ==> #[trigger] self.history@[i].1 <= self.latest
        }
    }

    /// Creates a new rate limiter manager: a full global bucket, no endpoint buckets
    /// and no limits.
    pub fn new() -> (res: Self)
        ensures
            res.wf(),
            res.limits() == fresh_limits(),
            res.reading() == 0,
            res.checks() == Seq::<(Seq<char>, nat)>::empty(),
            res.answers() == Seq::<Option<nat>>::empty(),
            res.only_checks(),
    {
        let res = RateLimiterManager {
            global: RateLimiter::new(GLOBAL_RATE_LIMIT, RATE_LIMIT_WINDOW_NANOS),
            endpoints: StringMap::new(),
            active_limits: StringMap::new(),
            origin: instant_now(),
            latest: 0,
            history: Ghost(Seq::empty()),
            answered: Ghost(Seq::empty()),
            checks_only: Ghost(true),
        };
        assert(res.limits().endpoints =~= Map::<Seq<char>, Bucket>::empty());
        assert(res.limits().active =~= Map::<Seq<char>, nat>::empty());
        res
    }

    /// The latest time the manager has used, in nanoseconds since its creation.
    pub fn latest_reading(&self) -> (res: u64)
        ensures
            res == self.reading(),
    {
        self.latest
    }

    /// One check at time `now`; the clock, history and answers are left to the
    /// caller.
    fn step_at(&mut self, endpoint: &str, now: u64) -> (res: Option<u64>)
        requires
            old(self).rates(),
        ensures
            final(self).rates(),
            (final(self).limits(), wait_view(res)) == check_step(
                old(self).limits(),
                endpoint@,
                now as nat,
            ),
            final(self).latest == old(self).latest,
            final(self).history == old(self).history,
            final(self).answered == old(self).answered,
            final(self).checks_only == old(self).checks_only,
    {
        match self.active_limits.get(endpoint) {
            Some(until) => {
                if *until > now {
                    return Some(*until - now);
                }
            },
            None => {},
        }
        let global_wait = self.global.try_acquire_at(now);
        if global_wait.is_some() {
            return global_wait;
        }
        let mut limiter = match self.endpoints.remove(endpoint) {
            Some(l) => l,
            None => RateLimiter::new(ENDPOINT_RATE_LIMIT, RATE_LIMIT_WINDOW_NANOS),
        };
        let r = limiter.try_acquire_at(now);
        self.endpoints.insert(String::from_str(endpoint), limiter);
        proof {
            assert(self.limits().endpoints =~= old(self).limits().endpoints.insert(
                endpoint@,
                limiter.bucket(),
            ));
        }
        r
    }

    /// Checks whether a request to `endpoint` may go out at time `now` (nanoseconds on
    /// the manager's clock), and takes its tokens if so. Returns `None` if the request
    /// can proceed, or the wait in nanoseconds.
    pub fn check_at(&mut self, endpoint: &str, now: u64) -> (res: Option<u64>)
        requires
            old(self).wf(),
        ensures
            final(self).wf(),
            (final(self).limits(), wait_view(res)) == check_step(
                old(self).limits(),
                endpoint@,
                now as nat,
            ),
            final(self).reading() == if now >= old(self).reading() {
                now as nat
            } else {
                old(self).reading()
            },
            final(self).checks() == old(self).checks().push((endpoint@, now as nat)),
            final(self).answers() == old(self).answers().push(wait_view(res)),
            final(self).only_checks() == (old(self).only_checks() && now >= old(self).reading()),
    {
        let ghost h = self.history@;
        let ghost a = self.answered@;
        let ghost was_checks_only = self.checks_only@;
        let in_order = now >= self.latest;
        let res = self.step_at(endpoint, now);
        if in_order {
            self.latest = now;
        }
        let ghost h2 = h.push((endpoint@, now as nat));
        proof {
            self.history@ = h2;
            self.answered@ = a.push(wait_view(res));
            self.checks_only@ = was_checks_only && in_order;
        }
        proof {
            if self.checks_only@ {
                assert(h2.drop_last() =~= h);
                assert(h2.last() == (endpoint@, now as nat));
                assert forall|i: int| 0 <= i < h2.len() implies #[trigger] h2[i].1 <= self.latest by {
                    if i < h.len() {
                        assert(h2[i] == h[i]);
                    }
                }
                assert forall|i: int, j: int| 0 <= i <= j < h2.len() implies #[trigger] h2[i].1
                    <= #[trigger] h2[j].1 by {
                    if j < h.len() {
                        assert(h2[i] == h[i] && h2[j] == h[j]);
                    } else if i < h.len() {
                        assert(h2[i] == h[i]);
                    }
                }
            }
        }
        res
    }

    /// Checks whether a request to `endpoint` may go out now; it is
    /// [`RateLimiterManager::check_at`] at the current reading of the clock, taken no
    /// earlier than the latest time the manager has used, so its time never goes
    /// back.
    pub fn check(&mut self, endpoint: &str) -> (res: Option<u64>)
        requires
            old(self).wf(),
        ensures
            final(self).wf(),
            final(self).reading() >= old(self).reading(),
            (final(self).limits(), wait_view(res)) == check_step(
                old(self).limits(),
                endpoint@,
                final(self).reading(),
            ),
            final(self).checks() == old(self).checks().push((endpoint@, final(self).reading())),
            final(self).answers() == old(self).answers().push(wait_view(res)),
            final(self).only_checks() == old(self).only_checks(),
    {
        let reading = nanos_since(&self.origin);
        let now = if reading < self.latest {
            self.latest
        } else {
            reading
        };
        self.check_at(endpoint, now)
    }

    /// Records, at time `now`, a rate limit response from the API: the endpoint is
    /// limited for `retry_after_nanos` nanoseconds.
    pub fn record_rate_limit_at(&mut self, endpoint: &str, retry_after_nanos: u64, now: u64)
        requires
            old(self).wf(),
        ensures
            final(self).wf(),
            final(self).limits() == record_step(
                old(self).limits(),
                endpoint@,
                retry_after_nanos as nat,
                now as nat,
            ),
            final(self).reading() == if now >= old(self).reading() {
                now as nat
            } else {
                old(self).reading()
            },
            !final(self).only_checks(),
    {
        let until = now.saturating_add(retry_after_nanos);
        self.active_limits.insert(String::from_str(endpoint), until);
        if now >= self.latest {
            self.latest = now;
        }
        proof {
            self.checks_only@ = false;
        }
        proof {
            assert(self.limits().active =~= old(self).limits().active.insert(
                endpoint@,
                until as nat,
            ));
        }
    }

    /// Records a rate limit response from the API; it is
    /// [`RateLimiterManager::record_rate_limit_at`] at the current reading of the clock,
    /// taken no earlier than the latest time the manager has used.
    pub fn record_rate_limit(&mut self, endpoint: &str, retry_after_nanos: u64)
        requires
            old(self).wf(),
        ensures
            final(self).wf(),
            final(self).reading() >= old(self).reading(),
            final(self).limits() == record_step(
                old(self).limits(),
                endpoint@,
                retry_after_nanos as nat,
                final(self).reading(),
            ),
            !final(self).only_checks(),
    {
        let reading = nanos_since(&self.origin);
        let now = if reading < self.latest {
            self.latest
        } else {
            reading
        };
        self.record_rate_limit_at(endpoint, retry_after_nanos, now)
    }

    /// Clears an active rate limit for an endpoint.
    pub fn clear_rate_limit(&mut self, endpoint: &str)
        requires
            old(self).wf(),
        ensures
            final(self).wf(),
            final(self).limits() == clear_step(old(self).limits(), endpoint@),
            final(self).reading() == old(self).reading(),
            !final(self).only_checks(),
    {
        let _ = self.active_limits.remove(endpoint);
        proof {
            self.checks_only@ = false;
        }
        proof {
            assert(self.limits().active =~= old(self).limits().active.remove(endpoint@));
        }
    }
}

/// The per-minute limits hold over the checks that a manager has made: where only
/// checks were made, all within 400 milliseconds of the manager's creation, at most
/// 120 requests were let through in all and at most 60 to each endpoint.
pub proof fn law_manager_within_rate_limits(m: RateLimiterManager)
    requires
        m.wf(),
        m.only_checks(),
        m.reading() <= 400_000_000,
    ensures
        granted(m.answers()) <= GLOBAL_RATE_LIMIT,
        forall|e: Seq<char>| #[trigger] granted_to(m.checks(), m.answers(), e) <= ENDPOINT_RATE_LIMIT,
{
    let h = m.checks();
    assert forall|i: int| 0 <= i < h.len() implies #[trigger] h[i].1 <= 400_000_000 by {
        assert(h[i].1 <= m.reading());
    }
    law_checks_within_rate_limits(h);
}

/// Where a manager has made only checks of one endpoint, more than 60 of them and
/// all within 400 milliseconds of its creation, exactly the first 60 were let
/// through and the 61st was answered with a wait of at least a nanosecond.
pub proof fn law_manager_sixty_per_endpoint(m: RateLimiterManager, e: Seq<char>)
    requires
        m.wf(),
        m.only_checks(),
        m.reading() <= 400_000_000,
        m.checks().len() > ENDPOINT_RATE_LIMIT,
        forall|i: int| 0 <= i < m.checks().len() ==> (#[trigger] m.checks()[i]).0 == e,
    ensures
        forall|i: int| 0 <= i < ENDPOINT_RATE_LIMIT ==> (#[trigger] m.answers()[i]) is None,
        m.answers()[ENDPOINT_RATE_LIMIT as int] matches Some(d) && d > 0,
{
    let h = m.checks();
    assert forall|i: int| 0 <= i < h.len() implies #[trigger] h[i].1 <= 400_000_000 by {
        assert(h[i].1 <= m.reading());
    }
    law_sixty_per_endpoint(h, e);
}

impl Default for RateLimiterManager {
    fn default() -> (res: Self)
        ensures
            res.wf(),
            res.limits() == fresh_limits(),
            res.reading() == 0,
            res.checks() == Seq::<(Seq<char>, nat)>::empty(),
            res.answers() == Seq::<Option<nat>>::empty(),
            res.only_checks(),
    {
        Self::new()
    }
}

} // verus!
