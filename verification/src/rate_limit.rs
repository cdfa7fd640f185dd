//! Pacing of requests: how long a caller has to wait so that requests start
//! no closer together than the configured rate allows.
//!
//! The limiter reads no clock and never sleeps. Its caller hands it the time,
//! in nanoseconds on a clock that never runs backwards, waits for as long as
//! it is told, and then marks the request with the time at which it starts.

use vstd::prelude::*;
use crate::error::HibpError;

verus! {

/// The nanoseconds in a minute.
pub const NANOS_PER_MINUTE: u64 = 60_000_000_000;

/// The least time between the starts of two requests at `rpm` requests per
/// minute, in nanoseconds: a minute divided by `rpm`, rounded up to a whole
/// nanosecond.
pub open spec fn min_interval(rpm: int) -> int {
    (NANOS_PER_MINUTE + rpm - 1) / rpm
}

/// The time that has passed at `now` since `last`; none if `now` is the earlier.
pub open spec fn elapsed(last: int, now: int) -> int {
    if now >= last {
        now - last
    } else {
        0
    }
}

/// How long a caller that arrives at `now` has to wait when the last request
/// started at `last`: what is missing of the least interval, if anything.
pub open spec fn required_wait(rpm: int, last: int, now: int) -> int {
    if elapsed(last, now) < min_interval(rpm) {
        min_interval(rpm) - elapsed(last, now)
    } else {
        0
    }
}

/// A pacing gate for one client: the configured rate, and when the last
/// request was let through.
///
/// The limiter is not `Clone`: whoever shares a client shares its one limiter.
#[derive(Debug)]
pub struct RateLimiter {
    rpm: i32,
    last_request: u64,
}

impl RateLimiter {
    #[verifier::type_invariant]
    spec fn positive_rate(self) -> bool {
        self.rpm > 0
    }

    /// The configured rate, in requests per minute.
    pub closed spec fn rpm(&self) -> int {
        self.rpm as int
    }

    /// When the last request was let through.
    pub closed spec fn last_request(&self) -> int {
        self.last_request as int
    }

    /// A limiter for `rpm` requests per minute, made at `now`. The making counts
    /// as a request: the first caller waits as if one had started at `now`.
    /// A rate that is not positive is refused.
    pub fn new(rpm: i32, now: u64) -> (limiter: Result<RateLimiter, HibpError>)
        ensures
            rpm <= 0 ==> limiter == Err::<RateLimiter, HibpError>(HibpError::InvalidRateLimit),
            rpm > 0 ==> limiter is Ok && limiter->Ok_0.rpm() == rpm
                && limiter->Ok_0.last_request() == now,
    {
        if rpm <= 0 {
            Err(HibpError::InvalidRateLimit)
        } else {
            Ok(RateLimiter { rpm, last_request: now })
        }
    }

    /// The configured rate, in requests per minute.
    pub fn get_rpm(&self) -> (rpm: i32)
        ensures
            rpm == self.rpm(),
            rpm > 0,
    {
        proof {
            use_type_invariant(self);
        }
        self.rpm
    }

    /// The least time between the starts of two requests, in nanoseconds.
    pub fn interval(&self) -> (nanos: u64)
        ensures
            nanos == min_interval(self.rpm()),
            0 < nanos <= NANOS_PER_MINUTE,
    {
        proof {
            use_type_invariant(self);
            lemma_min_interval(self.rpm as int);
        }
        let rpm: u64 = self.rpm as u64;
        (NANOS_PER_MINUTE + rpm - 1) / rpm
    }

    /// How many nanoseconds a caller that arrives at `now` has to wait before
    /// its request may start; 0 when it may start at once. Changes nothing:
    /// the caller marks the request once it has waited.
    pub fn wait_if_needed(&self, now: u64) -> (wait: u64)
        ensures
            wait == required_wait(self.rpm(), self.last_request(), now as int),
            wait <= min_interval(self.rpm()),
    {
        let interval: u64 = self.interval();
        let elapsed: u64 = if now >= self.last_request {
            now - self.last_request
        } else {
            0
        };
        if elapsed < interval {
            interval - elapsed
        } else {
            0
        }
    }

    /// Marks a request that starts at `now`: later callers are paced from it.
    /// The mark is set whether or not the caller had to wait.
    pub fn mark_request(&mut self, now: u64)
        ensures
            final(self).rpm() == old(self).rpm(),
            final(self).last_request() == now,
    {
        proof {
            use_type_invariant(&*self);
        }
        self.last_request = now;
    }
}

/// The least interval is a minute divided by the rate and rounded up: `rpm`
/// such intervals fill a minute, and intervals one nanosecond shorter would not.
pub proof fn lemma_min_interval(rpm: int)
    requires
        rpm > 0,
    ensures
        0 < min_interval(rpm) <= NANOS_PER_MINUTE,
        min_interval(rpm) * rpm >= NANOS_PER_MINUTE,
        (min_interval(rpm) - 1) * rpm < NANOS_PER_MINUTE,
{
    let n = NANOS_PER_MINUTE + rpm - 1;
    let m = n / rpm;
    assert(n == rpm * m + n % rpm && 0 <= n % rpm < rpm) by {
        vstd::arithmetic::div_mod::lemma_fundamental_div_mod(n, rpm);
        vstd::arithmetic::div_mod::lemma_mod_bound(n, rpm);
    }
    assert(m * rpm == rpm * m) by (nonlinear_arith);
    assert((m - 1) * rpm == m * rpm - rpm) by (nonlinear_arith);
    assert(m > 0) by (nonlinear_arith)
        requires
            rpm > 0,
            m * rpm >= NANOS_PER_MINUTE,
    ;
    assert(m <= NANOS_PER_MINUTE) by (nonlinear_arith)
        requires
            rpm >= 1,
            m > 0,
            (m - 1) * rpm < NANOS_PER_MINUTE,
    ;
}

/// No caller waits longer than the least interval, however long the limiter
/// was idle before: the wait is never negative, never above the interval, and
/// nothing once an interval has passed since the last request. The interval is
/// a minute divided by the rate, rounded up to a whole nanosecond, so the
/// wait stays below that quotient plus one nanosecond, and does not exceed it
/// where the rate divides the minute evenly.
pub proof fn lemma_wait_is_bounded(rpm: int, last: int, now: int)
    requires
        rpm > 0,
    ensures
        0 <= required_wait(rpm, last, now) <= min_interval(rpm),
        elapsed(last, now) >= min_interval(rpm) ==> required_wait(rpm, last, now) == 0,
        required_wait(rpm, last, now) * rpm < NANOS_PER_MINUTE + rpm,
        NANOS_PER_MINUTE as int % rpm == 0 ==> required_wait(rpm, last, now) * rpm
            <= NANOS_PER_MINUTE,
{
    lemma_min_interval(rpm);
    let m = min_interval(rpm);
    let w = required_wait(rpm, last, now);
    assert(w * rpm <= m * rpm) by (nonlinear_arith)
        requires
            0 <= w <= m,
            rpm > 0,
    ;
    assert((m - 1) * rpm == m * rpm - rpm) by (nonlinear_arith);
    if NANOS_PER_MINUTE as int % rpm == 0 {
        let q = NANOS_PER_MINUTE as int / rpm;
        assert(NANOS_PER_MINUTE as int == rpm * q) by {
            vstd::arithmetic::div_mod::lemma_fundamental_div_mod(NANOS_PER_MINUTE as int, rpm);
        }
        assert(m <= q) by (nonlinear_arith)
            requires
                rpm > 0,
                (m - 1) * rpm < rpm * q,
        ;
        assert(m * rpm <= NANOS_PER_MINUTE) by (nonlinear_arith)
            requires
                rpm > 0,
                m <= q,
                NANOS_PER_MINUTE as int == rpm * q,
        ;
    }
}

/// A request that arrives at `now`, no earlier than the last one started, and
/// starts no earlier than the wait it was told has passed, starts at least one
/// interval after the last one: at least a minute divided by the rate.
pub proof fn lemma_paced_start(rpm: int, last: int, now: int, start: int)
    requires
        rpm > 0,
        last <= now,
        now + required_wait(rpm, last, now) <= start,
    ensures
        start - last >= min_interval(rpm),
        (start - last) * rpm >= NANOS_PER_MINUTE,
{
    lemma_min_interval(rpm);
    let m = min_interval(rpm);
    assert((start - last) * rpm >= m * rpm) by (nonlinear_arith)
        requires
            start - last >= m,
            rpm > 0,
    ;
}

/// The time from which request `i` of a run is paced: the start of the request
/// before it, or the time at which the limiter was made.
pub open spec fn paced_from(made: int, starts: Seq<int>, i: int) -> int {
    if i == 0 {
        made
    } else {
        starts[i - 1]
    }
}

/// Whether `arrivals` and `starts` are a run of calls through one limiter made
/// at `made`: the calls pass one at a time on a clock that never runs
/// backwards, so each arrives no earlier than the one before it started, and
/// each starts no earlier than the wait it was told has passed.
pub open spec fn is_paced_run(rpm: int, made: int, arrivals: Seq<int>, starts: Seq<int>) -> bool {
    &&& arrivals.len() == starts.len()
    &&& forall|i: int|
        #![trigger starts[i]]
        0 <= i < starts.len() ==> paced_from(made, starts, i) <= arrivals[i] && arrivals[i]
            + required_wait(rpm, paced_from(made, starts, i), arrivals[i]) <= starts[i]
}

/// In any run through one limiter, two requests of which one follows the other
/// start at least one interval apart: at least a minute divided by the rate.
pub proof fn lemma_pacing_invariant(
    rpm: int,
    made: int,
    arrivals: Seq<int>,
    starts: Seq<int>,
    i: int,
)
    requires
        rpm > 0,
        is_paced_run(rpm, made, arrivals, starts),
        0 <= i,
        i + 1 < starts.len(),
    ensures
        starts[i + 1] - starts[i] >= min_interval(rpm),
        (starts[i + 1] - starts[i]) * rpm >= NANOS_PER_MINUTE,
{
    assert(paced_from(made, starts, i + 1) == starts[i]);
    lemma_paced_start(rpm, starts[i], arrivals[i + 1], starts[i + 1]);
}

/// In any run through one limiter, request `j` starts at least `j - i`
/// intervals after request `i`: the calls of a run take at least one interval
/// less than their number.
pub proof fn lemma_pacing_total(
    rpm: int,
    made: int,
    arrivals: Seq<int>,
    starts: Seq<int>,
    i: int,
    j: int,
)
    requires
        rpm > 0,
        is_paced_run(rpm, made, arrivals, starts),
        0 <= i <= j < starts.len(),
    ensures
        starts[j] - starts[i] >= (j - i) * min_interval(rpm),
    decreases j - i,
{
    if i < j {
        lemma_pacing_total(rpm, made, arrivals, starts, i, j - 1);
        lemma_pacing_invariant(rpm, made, arrivals, starts, j - 1);
        assert((j - i) * min_interval(rpm) == (j - 1 - i) * min_interval(rpm) + min_interval(rpm))
            by (nonlinear_arith);
    } else {
        assert((j - i) * min_interval(rpm) == 0) by (nonlinear_arith)
            requires
                j - i == 0,
        ;
    }
}

} // verus!
