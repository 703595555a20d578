use vstd::prelude::*;

verus! {

/// Milliseconds in the one-second window.
pub const ONE_SECOND_MS: u64 = 1000;

/// Milliseconds in the two-minute window.
pub const TWO_MINUTES_MS: u64 = 120000;

/// Mathematical state of a bucket; times are milliseconds on the caller's clock.
pub ghost struct BucketState {
    pub capacity: nat,
    pub tokens: nat,
    pub rate: nat,
    pub interval: nat,
    pub last: nat,
}

/// The bucket after the lazy refill at time `now`: whole elapsed intervals
/// award `rate` tokens each, clamped to the capacity; a partial interval
/// awards nothing and leaves the refill time where it was.
pub open spec fn refilled(s: BucketState, now: nat) -> BucketState {
    if now >= s.last + s.interval {
        let gained = ((now - s.last) as nat / s.interval) * s.rate;
        let total = s.tokens + gained;
        BucketState {
            tokens: if total <= s.capacity { total } else { s.capacity },
            last: now,
            ..s
        }
    } else {
        s
    }
}

/// One `try_acquire(n)` at time `now`: the state after it and whether it succeeded.
pub open spec fn acquire_step(s: BucketState, now: nat, n: nat) -> (BucketState, bool) {
    let r = refilled(s, now);
    if r.tokens >= n {
        (BucketState { tokens: (r.tokens - n) as nat, ..r }, true)
    } else {
        (r, false)
    }
}

/// Tokens never exceed the capacity and the interval is positive.
pub open spec fn state_ok(s: BucketState) -> bool {
    s.tokens <= s.capacity && s.interval > 0
}

/// A fresh, full bucket whose refill clock starts at `now`.
pub open spec fn fresh(capacity: nat, rate: nat, interval: nat, now: nat) -> BucketState {
    BucketState { capacity, tokens: capacity, rate, interval, last: now }
}

/// Ceiling of `a / b`.
pub open spec fn ceil_div(a: nat, b: nat) -> nat {
    ((a + b - 1) as nat / b) as nat
}

/// How many of a run of one-token acquires, made at the given times, succeed.
pub open spec fn successes(s: BucketState, times: Seq<nat>) -> nat
    decreases times.len(),
{
    if times.len() == 0 {
        0
    } else {
        let (next, ok) = acquire_step(s, times[0], 1);
        (if ok { 1nat } else { 0nat }) + successes(next, times.drop_first())
    }
}

/// The times are in non-decreasing order and none is later than `until`.
pub open spec fn ordered_until(times: Seq<nat>, until: nat) -> bool {
    &&& forall|i: int, j: int| 0 <= i <= j < times.len() ==> times[i] <= times[j]
    &&& forall|i: int| 0 <= i < times.len() ==> times[i] <= until
}

proof fn lemma_floor_split(a: nat, b: nat, d: nat, r: nat)
    requires
        d > 0,
    ensures
        (a / d) * r + (b / d) * r <= ((a + b) / d) * r,
{
    assert((a / d) + (b / d) <= (a + b) / d) by {
        vstd::arithmetic::div_mod::lemma_fundamental_div_mod(a as int, d as int);
        vstd::arithmetic::div_mod::lemma_fundamental_div_mod(b as int, d as int);
        vstd::arithmetic::div_mod::lemma_div_plus_one(0, d as int);
        let q = (a / d) + (b / d);
        assert(q * d <= a + b) by (nonlinear_arith)
            requires
                a == d * (a / d) + a % d,
                b == d * (b / d) + b % d,
                a % d >= 0,
                b % d >= 0,
                q == (a / d) + (b / d),
        ;
        vstd::arithmetic::div_mod::lemma_div_is_ordered((q * d) as int, (a + b) as int, d as int);
        vstd::arithmetic::div_mod::lemma_div_multiples_vanish(q as int, d as int);
    }
    let x = a / d;
    let y = b / d;
    let z = (a + b) / d;
    vstd::arithmetic::mul::lemma_mul_is_distributive_add_other_way(r as int, x as int, y as int);
    vstd::arithmetic::mul::lemma_mul_inequality((x + y) as int, z as int, r as int);
}

/// `rate` for each whole interval from the last refill of `s` to `until`.
pub open spec fn refills_until(s: BucketState, until: nat) -> nat {
    if s.last <= until {
        ((until - s.last) as nat / s.interval) * s.rate
    } else {
        0
    }
}

/// Over any run of one-token acquires at ordered times that end by `until`,
/// the successes number at most the tokens held at the start plus `rate`
/// for each whole interval between the last refill and `until`.
pub proof fn lemma_successes_bounded(s: BucketState, times: Seq<nat>, until: nat)
    requires
        s.tokens <= s.capacity,
        s.interval > 0,
        ordered_until(times, until),
    ensures
        successes(s, times) <= s.tokens + refills_until(s, until),
    decreases times.len(),
{
    if times.len() > 0 {
        let t0 = times[0];
        let (next, ok) = acquire_step(s, t0, 1);
        let rest = times.drop_first();
        assert(ordered_until(rest, until)) by {
            assert forall|i: int, j: int| 0 <= i <= j < rest.len() implies rest[i] <= rest[j] by {
                assert(rest[i] == times[i + 1] && rest[j] == times[j + 1]);
            }
            assert forall|i: int| 0 <= i < rest.len() implies rest[i] <= until by {
                assert(rest[i] == times[i + 1]);
            }
        }
        let r = refilled(s, t0);
        if t0 >= s.last + s.interval {
            assert(t0 <= until);
            lemma_successes_bounded(next, rest, until);
            lemma_floor_split((t0 - s.last) as nat, (until - t0) as nat, s.interval, s.rate);
            assert(((t0 - s.last) as nat + (until - t0) as nat) as nat == (until - s.last) as nat);
        } else {
            lemma_successes_bounded(next, rest, until);
        }
    }
}

/// The rate-limit law over any window, from any state: one-token acquires
/// whose times all lie within a window shorter than `k` intervals succeed at
/// most `capacity + k * rate` times.
pub proof fn lemma_sliding_window_law(s: BucketState, times: Seq<nat>, until: nat, k: nat)
    requires
        state_ok(s),
        times.len() > 0,
        ordered_until(times, until),
        until < times[0] + k * s.interval,
    ensures
        successes(s, times) <= s.capacity + k * s.rate,
{
    let t1 = times[0];
    let r = refilled(s, t1);
    assert(refilled(r, t1) == r);
    assert(successes(s, times) == successes(r, times));
    lemma_successes_bounded(r, times, until);
    if r.last <= until {
        let q = (until - r.last) as nat / s.interval;
        assert(q <= k) by {
            if t1 >= s.last + s.interval {
                assert(r.last == t1);
            } else {
                assert(r.last == s.last);
            }
            assert((until - r.last) < (k + 1) * s.interval) by (nonlinear_arith)
                requires
                    until < t1 + k * s.interval,
                    r.last <= until,
                    t1 < r.last + s.interval,
            ;
            vstd::arithmetic::div_mod::lemma_div_is_ordered(
                (until - r.last) as int,
                ((k + 1) * s.interval - 1) as int,
                s.interval as int,
            );
            assert(((k + 1) * s.interval - 1) as int / s.interval as int == k) by {
                assert(((k + 1) * s.interval - 1) as int == k * s.interval + (s.interval - 1))
                    by (nonlinear_arith);
                vstd::arithmetic::div_mod::lemma_fundamental_div_mod_converse(
                    ((k + 1) * s.interval - 1) as int,
                    s.interval as int,
                    k as int,
                    (s.interval - 1) as int,
                );
            }
        }
        vstd::arithmetic::mul::lemma_mul_inequality(q as int, k as int, s.rate as int);
    }
}

/// The rate-limit law of a fresh bucket of capacity `capacity` that regains
/// `rate` tokens per `interval`: one-token acquires made within `window` of
/// its creation succeed at most `capacity + k * rate` times when the window
/// spans at most `k` intervals, and at most `capacity` times when it is
/// shorter than one interval.
pub proof fn lemma_window_law(
    capacity: nat,
    rate: nat,
    interval: nat,
    start: nat,
    window: nat,
    k: nat,
    times: Seq<nat>,
)
    requires
        interval > 0,
        ordered_until(times, start + window),
        window <= k * interval,
    ensures
        successes(fresh(capacity, rate, interval, start), times) <= capacity + k * rate,
        window < interval ==> successes(fresh(capacity, rate, interval, start), times) <= capacity,
{
    lemma_successes_bounded(fresh(capacity, rate, interval, start), times, start + window);
    assert(((start + window - start) as nat) == window);
    assert((window / interval) * rate <= k * rate) by {
        vstd::arithmetic::div_mod::lemma_div_is_ordered(window as int, (k * interval) as int, interval as int);
        vstd::arithmetic::div_mod::lemma_div_multiples_vanish(k as int, interval as int);
        assert(interval * k == k * interval) by (nonlinear_arith);
        vstd::arithmetic::mul::lemma_mul_inequality((window / interval) as int, k as int, rate as int);
    }
    if window < interval {
        vstd::arithmetic::div_mod::lemma_basic_div(window as int, interval as int);
        assert(window / interval == 0);
        vstd::arithmetic::mul::lemma_mul_basics(rate as int);
    }
}

/// Single-window rate limit with lazy, integer refill.
#[derive(Clone, Copy, Debug)]
pub struct TokenBucket {
    capacity: u32,
    tokens: u32,
    refill_rate: u32,
    refill_interval_ms: u64,
    last_refill_ms: u64,
}

impl View for TokenBucket {
    type V = BucketState;

    closed spec fn view(&self) -> BucketState {
        BucketState {
            capacity: self.capacity as nat,
            tokens: self.tokens as nat,
            rate: self.refill_rate as nat,
            interval: self.refill_interval_ms as nat,
            last: self.last_refill_ms as nat,
        }
    }
}

impl TokenBucket {
    pub open spec fn wf(&self) -> bool {
        state_ok(self@)
    }

    /// A full bucket of `capacity` tokens that regains `refill_rate` tokens
    /// every `refill_interval_ms` milliseconds, its clock starting at `now_ms`.
    pub fn new(capacity: u32, refill_rate: u32, refill_interval_ms: u64, now_ms: u64) -> (b: Self)
        requires
            refill_interval_ms > 0,
        ensures
            b.wf(),
            b@ == fresh(capacity as nat, refill_rate as nat, refill_interval_ms as nat, now_ms as nat),
    {
        TokenBucket {
            capacity,
            tokens: capacity,
            refill_rate,
            refill_interval_ms,
            last_refill_ms: now_ms,
        }
    }

    /// A bucket over a one-second window.
    pub fn per_second(capacity: u32, rate_per_second: u32, now_ms: u64) -> (b: Self)
        ensures
            b.wf(),
            b@ == fresh(capacity as nat, rate_per_second as nat, ONE_SECOND_MS as nat, now_ms as nat),
    {
        Self::new(capacity, rate_per_second, ONE_SECOND_MS, now_ms)
    }

    /// A bucket over a two-minute window.
    pub fn per_two_minutes(capacity: u32, rate_per_two_minutes: u32, now_ms: u64) -> (b: Self)
        ensures
            b.wf(),
            b@ == fresh(
                capacity as nat,
                rate_per_two_minutes as nat,
                TWO_MINUTES_MS as nat,
                now_ms as nat,
            ),
    {
        Self::new(capacity, rate_per_two_minutes, TWO_MINUTES_MS, now_ms)
    }

    fn refill(&mut self, now_ms: u64)
        requires
            old(self).wf(),
        ensures
            final(self).wf(),
            final(self)@ == refilled(old(self)@, now_ms as nat),
    {
        if now_ms >= self.last_refill_ms && now_ms - self.last_refill_ms >= self.refill_interval_ms {
            let intervals: u64 = (now_ms - self.last_refill_ms) / self.refill_interval_ms;
            assert(intervals as int * self.refill_rate as int <= 0xffff_ffff_ffff_ffff_ffff_ffff)
                by (nonlinear_arith)
                requires
                    intervals <= u64::MAX,
                    self.refill_rate <= u32::MAX,
            ;
            let gained: u128 = intervals as u128 * self.refill_rate as u128;
            let total: u128 = self.tokens as u128 + gained;
            if total <= self.capacity as u128 {
                self.tokens = total as u32;
            } else {
                self.tokens = self.capacity;
            }
            self.last_refill_ms = now_ms;
        }
    }

    /// Refills, then takes `tokens` if that many are there; never waits.
    pub fn try_acquire(&mut self, tokens: u32, now_ms: u64) -> (ok: bool)
        requires
            old(self).wf(),
        ensures
            final(self).wf(),
            (final(self)@, ok) == acquire_step(old(self)@, now_ms as nat, tokens as nat),
    {
        self.refill(now_ms);
        if self.tokens >= tokens {
            self.tokens = self.tokens - tokens;
            true
        } else {
            false
        }
    }

    /// Refills, then reports the tokens held.
    pub fn available_tokens(&mut self, now_ms: u64) -> (n: u32)
        requires
            old(self).wf(),
        ensures
            final(self).wf(),
            final(self)@ == refilled(old(self)@, now_ms as nat),
            n as nat == final(self)@.tokens,
    {
        self.refill(now_ms);
        self.tokens
    }

    /// Milliseconds to wait until `tokens_needed` more tokens have been awarded.
    pub fn calculate_wait_time(&self, tokens_needed: u32) -> (ms: u128)
        requires
            self@.rate > 0,
        ensures
            ms as nat == ceil_div(tokens_needed as nat, self@.rate) * self@.interval,
    {
        let rate: u64 = self.refill_rate as u64;
        let intervals: u64 = (tokens_needed as u64 + rate - 1) / rate;
        assert(intervals == (tokens_needed + rate - 1) / (rate as int));
        assert(intervals <= u32::MAX) by (nonlinear_arith)
            requires
                rate >= 1,
                tokens_needed <= u32::MAX,
                intervals == (tokens_needed + rate - 1) / (rate as int),
                rate <= u32::MAX,
        ;
        assert(intervals as int * self.refill_interval_ms as int <= 0xffff_ffff_ffff_ffff_ffff_ffff)
            by (nonlinear_arith)
            requires
                intervals <= u32::MAX,
                self.refill_interval_ms <= u64::MAX,
        ;
        let ms: u128 = intervals as u128 * self.refill_interval_ms as u128;
        ms
    }

    /// The first half of a blocking acquire: takes the tokens now if they are
    /// there and returns `None`; otherwise leaves the count and returns how
    /// long to wait before trying once more.
    pub fn acquire(&mut self, tokens: u32, now_ms: u64) -> (wait: Option<u128>)
        requires
            old(self).wf(),
            old(self)@.rate > 0,
        ensures
            final(self).wf(),
            acquire_step(old(self)@, now_ms as nat, tokens as nat).1 ==> {
                &&& wait is None
                &&& final(self)@ == acquire_step(old(self)@, now_ms as nat, tokens as nat).0
            },
            !acquire_step(old(self)@, now_ms as nat, tokens as nat).1 ==> {
                let r = refilled(old(self)@, now_ms as nat);
                &&& final(self)@ == r
                &&& wait == Some((ceil_div((tokens - r.tokens) as nat, r.rate) * r.interval) as u128)
            },
    {
        self.refill(now_ms);
        if self.tokens >= tokens {
            self.tokens = self.tokens - tokens;
            None
        } else {
            let needed: u32 = tokens - self.tokens;
            Some(self.calculate_wait_time(needed))
        }
    }
}

} // verus!
