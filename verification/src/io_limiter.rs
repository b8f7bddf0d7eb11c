//! A token-bucket limiter for disk I/O with three priority classes.
//!
//! Each class has its own quota of bytes: a request is granted when its
//! class's quota covers it, and the granted bytes are taken from that quota.
//! Every refill interval (100 ms) the quotas grow by the refill amount, split
//! one half, one third and one sixth between the high, medium and low
//! classes. The refill amount is the rate times the interval's length in
//! seconds, computed in double precision and rounded toward zero: the rate is
//! first rounded to a double, then multiplied by the double nearest to one
//! tenth, and the product rounded to a double again.
//!
//! Times are nanoseconds on the limiter's own monotonic clock, counted from
//! the moment it was made. A refill check refills when an interval has
//! passed since the last refill and then records its own time as the last
//! refill. Every operation that reads the clock has a counterpart ending in
//! `_at` that takes the time as an argument, and behaves as that counterpart
//! at a time no earlier than the latest time at which the limiter was used.

use crate::cache::max_u64;
use crate::clock::{instant_now, nanos_since};
use std::time::Instant;
use vstd::arithmetic::div_mod::{lemma_div_denominator, lemma_fundamental_div_mod};
use vstd::prelude::*;

verus! {

/// The class of an I/O request.
#[derive(Debug, Clone, Copy, PartialEq, Eq, Structural)]
pub enum IoPriority {
    High,
    Medium,
    Low,
}

/// The length of a refill interval, in nanoseconds (100 ms).
pub const REFILL_INTERVAL_NANOS: u64 = 100_000_000;

/// The state of a limiter: its rate, the quota of each class and the bytes
/// granted since the last refill.
pub struct LimiterState {
    pub bytes_per_second: u64,
    pub high: u64,
    pub medium: u64,
    pub low: u64,
    pub usage: u64,
}

/// `a + b` modulo 2^64, as an atomic fetch-and-add computes it.
pub open spec fn wrapping_add_u64(a: u64, b: u64) -> u64 {
    if a + b > u64::MAX {
        (a + b - 0x1_0000_0000_0000_0000) as u64
    } else {
        (a + b) as u64
    }
}

/// The quota of class `p`.
pub open spec fn quota_of(s: LimiterState, p: IoPriority) -> u64 {
    match p {
        IoPriority::High => s.high,
        IoPriority::Medium => s.medium,
        IoPriority::Low => s.low,
    }
}

/// `s` with the quota of class `p` set to `q`.
pub open spec fn with_quota(s: LimiterState, p: IoPriority, q: u64) -> LimiterState {
    match p {
        IoPriority::High => LimiterState { high: q, ..s },
        IoPriority::Medium => LimiterState { medium: q, ..s },
        IoPriority::Low => LimiterState { low: q, ..s },
    }
}

/// 2 to the power `k`.
pub open spec fn power_of_two(k: nat) -> nat
    decreases k,
{
    if k == 0 {
        1
    } else {
        2 * power_of_two((k - 1) as nat)
    }
}

/// How many low bits of `n` fall outside the 53-bit significand of a double:
/// the number of halvings that bring `n` below 2^53.
pub open spec fn dropped_bits(n: nat) -> nat
    decreases n,
{
    if n < 0x20_0000_0000_0000 {
        0
    } else {
        1 + dropped_bits(n / 2)
    }
}

/// `n` rounded to the nearest value that a double holds, ties to the even
/// significand: with `u` the weight of the last significand bit, `n` becomes
/// a multiple of `u`.
pub open spec fn round_to_double(n: nat) -> nat {
    let u = power_of_two(dropped_bits(n));
    let q = n / u;
    let r = n % u;
    if 2 * r > u || (2 * r == u && q % 2 == 1) {
        (q + 1) * u
    } else {
        q * u
    }
}

/// The significand of the double nearest to one tenth, whose value is this
/// number divided by 2^56.
pub const TENTH_SIGNIFICAND: u64 = 7_205_759_403_792_794;

/// The bytes added by one refill at `bytes_per_second`: the rate rounded to a
/// double, times the double nearest to one tenth, rounded to a double, then
/// rounded toward zero to whole bytes.
pub open spec fn refill_amount(bytes_per_second: u64) -> u64 {
    (round_to_double(round_to_double(bytes_per_second as nat) * TENTH_SIGNIFICAND as nat)
        / 0x100_0000_0000_0000) as u64
}

/// Rounds `n` to the nearest value that a double holds, ties to even.
fn round_u128_to_double(n: u128) -> (r: u128)
    requires
        n < 0x100_0000_0000_0000_0000_0000_0000_0000,
    ensures
        r == round_to_double(n as nat),
        r <= 2 * n,
{
    let mut m: u128 = n;
    let mut u: u128 = 1;
    let ghost mut k: nat = 0;
    proof {
        lemma_fundamental_div_mod(n as int, 1);
    }
    while m >= 0x20_0000_0000_0000
        invariant
            u > 0,
            u == power_of_two(k),
            m == n / u,
            u * m <= n,
            dropped_bits(n as nat) == k + dropped_bits(m as nat),
            k > 0 ==> m >= 0x10_0000_0000_0000,
            n < 0x100_0000_0000_0000_0000_0000_0000_0000,
        decreases m,
    {
        proof {
            lemma_div_denominator(n as int, u as int, 2);
            assert(u * 2 <= u * m) by (nonlinear_arith)
                requires
                    m >= 2,
                    u > 0,
            ;
            let m2: int = m as int / 2;
            assert((u * 2) * m2 <= u * m) by (nonlinear_arith)
                requires
                    m2 == m as int / 2,
                    u > 0,
                    m >= 0,
            ;
        }
        m = m / 2;
        u = u * 2;
        proof {
            k = k + 1;
        }
    }
    let r: u128 = n % u;
    proof {
        lemma_fundamental_div_mod(n as int, u as int);
        assert(u * m == m * u) by (nonlinear_arith);
        if k > 0 {
            assert(u <= u * m) by (nonlinear_arith)
                requires
                    m >= 1,
                    u > 0,
            ;
        }
        assert((m + 1) * u == m * u + u) by (nonlinear_arith);
    }
    if r * 2 > u || (r * 2 == u && m % 2 == 1) {
        (m + 1) * u
    } else {
        m * u
    }
}

/// The bytes that one refill adds at `bytes_per_second`: the rate times one
/// tenth of a second, computed as in double precision and rounded toward zero.
pub fn interval_refill_bytes(bytes_per_second: u64) -> (r: u64)
    ensures
        r == refill_amount(bytes_per_second),
{
    let a: u128 = round_u128_to_double(bytes_per_second as u128);
    assert(a * (TENTH_SIGNIFICAND as u128) <= 0x2_0000_0000_0000_0000 * (TENTH_SIGNIFICAND as u128))
        by (nonlinear_arith)
        requires
            a <= 0x2_0000_0000_0000_0000u128,
    ;
    let b: u128 = round_u128_to_double(a * (TENTH_SIGNIFICAND as u128));
    (b / 0x100_0000_0000_0000) as u64
}

/// `s` after one refill: each quota grows by its share of the interval's
/// bytes and the usage count restarts at zero.
pub open spec fn refilled(s: LimiterState) -> LimiterState {
    let amount = refill_amount(s.bytes_per_second);
    LimiterState {
        bytes_per_second: s.bytes_per_second,
        high: wrapping_add_u64(s.high, amount / 2),
        medium: wrapping_add_u64(s.medium, amount / 3),
        low: wrapping_add_u64(s.low, amount / 6),
        usage: 0,
    }
}

/// Whether a request of `bytes` in class `p` is granted in state `s`.
pub open spec fn grants(s: LimiterState, bytes: u64, p: IoPriority) -> bool {
    quota_of(s, p) >= bytes
}

/// The state after a request of `bytes` in class `p`: a granted request
/// takes its bytes from the class's quota and adds them to the usage; a
/// refused one changes nothing.
pub open spec fn after_request(s: LimiterState, bytes: u64, p: IoPriority) -> LimiterState {
    if grants(s, bytes, p) {
        LimiterState {
            usage: wrapping_add_u64(s.usage, bytes),
            ..with_quota(s, p, (quota_of(s, p) - bytes) as u64)
        }
    } else {
        s
    }
}

/// Whether a refill check at `now` refills, when the last refill was at
/// `last`: at least one refill interval has passed since then. A time
/// before `last` counts as no time passed.
pub open spec fn refill_due(last: u64, now: u64) -> bool {
    now >= last && now - last >= REFILL_INTERVAL_NANOS
}

/// The state after a refill check at `now`, the last refill being at `last`.
pub open spec fn checked_state(s: LimiterState, last: u64, now: u64) -> LimiterState {
    if refill_due(last, now) {
        refilled(s)
    } else {
        s
    }
}

/// The time of the last refill after a refill check at `now`: `now` when
/// the check refilled, `last` otherwise.
pub open spec fn last_refill_after(last: u64, now: u64) -> u64 {
    if refill_due(last, now) {
        now
    } else {
        last
    }
}

/// What a refill check at `now` does to a limiter: the quotas, the usage
/// and the time of the last refill as `checked_state` and
/// `last_refill_after` give them; rate and clock stay.
pub open spec fn check_outcome(before: IoRateLimiter, after: IoRateLimiter, now: u64) -> bool {
    &&& after@ == checked_state(before@, before.last_refill_nanos(), now)
    &&& after.last_refill_nanos() == last_refill_after(before.last_refill_nanos(), now)
    &&& after.clock() == before.clock()
}

/// What a request of `bytes` in class `p` at `now` does: a refill check at
/// `now`, then the request against the checked state.
pub open spec fn request_outcome(
    before: IoRateLimiter,
    after: IoRateLimiter,
    bytes: u64,
    p: IoPriority,
    now: u64,
    granted: bool,
) -> bool {
    let s = checked_state(before@, before.last_refill_nanos(), now);
    &&& granted == grants(s, bytes, p)
    &&& after@ == after_request(s, bytes, p)
    &&& after.last_refill_nanos() == last_refill_after(before.last_refill_nanos(), now)
    &&& after.clock() == before.clock()
}

/// What asking for the quota of class `p` at `now` does: a refill check at
/// `now`, then the class's quota in the checked state is returned.
pub open spec fn quota_outcome(
    before: IoRateLimiter,
    after: IoRateLimiter,
    p: IoPriority,
    now: u64,
    r: u64,
) -> bool {
    &&& check_outcome(before, after, now)
    &&& r == quota_of(after@, p)
}

/// A limiter of the I/O bandwidth, by priority class.
pub struct IoRateLimiter {
    bytes_per_second: u64,
    high_priority_quota: u64,
    medium_priority_quota: u64,
    low_priority_quota: u64,
    current_usage: u64,
    /// The instant the limiter was made; times are nanoseconds since then.
    clock: Instant,
    /// The time of the last refill, in nanoseconds on `clock`.
    last_refill_nanos: u64,
    /// The latest time at which the limiter was used, in nanoseconds on
    /// `clock`.
    latest: u64,
}

impl View for IoRateLimiter {
    type V = LimiterState;

    closed spec fn view(&self) -> LimiterState {
        LimiterState {
            bytes_per_second: self.bytes_per_second,
            high: self.high_priority_quota,
            medium: self.medium_priority_quota,
            low: self.low_priority_quota,
            usage: self.current_usage,
        }
    }
}

impl IoRateLimiter {
    /// The time of the last refill, in nanoseconds on the limiter's clock.
    pub closed spec fn last_refill_nanos(&self) -> u64 {
        self.last_refill_nanos
    }

    /// The clock the limiter reads: the instant it was made.
    pub closed spec fn clock(&self) -> Instant {
        self.clock
    }

    /// The latest time at which the limiter was used: the largest time of
    /// any refill check so far, or 0 for a new limiter.
    pub closed spec fn latest(&self) -> u64 {
        self.latest
    }

    /// A limiter at `bytes_per_second`, with the quotas one half, one third
    /// and one sixth of one second's bytes; its clock starts now, and that
    /// moment counts as its last refill.
    pub fn new(bytes_per_second: u64) -> (r: Self)
        ensures
            r@ == (LimiterState {
                bytes_per_second,
                high: bytes_per_second / 2,
                medium: bytes_per_second / 3,
                low: bytes_per_second / 6,
                usage: 0,
            }),
            r.last_refill_nanos() == 0,
            r.latest() == 0,
    {
        IoRateLimiter {
            bytes_per_second,
            high_priority_quota: bytes_per_second / 2,
            medium_priority_quota: bytes_per_second / 3,
            low_priority_quota: bytes_per_second / 6,
            current_usage: 0,
            clock: instant_now(),
            last_refill_nanos: 0,
            latest: 0,
        }
    }

    /// The current time on the limiter's clock, in nanoseconds; never
    /// earlier than the limiter's latest use.
    pub fn now(&self) -> (r: u64)
        ensures
            r >= self.latest(),
    {
        let t = nanos_since(&self.clock);
        if t >= self.latest {
            t
        } else {
            self.latest
        }
    }

    /// Refills the quotas when `elapsed_nanos`, the time since the last
    /// refill, is at least one refill interval; returns whether it did. The
    /// recorded time of the last refill is left to the caller.
    pub fn refill_at(&mut self, elapsed_nanos: u128) -> (done: bool)
        ensures
            done == (elapsed_nanos >= REFILL_INTERVAL_NANOS),
            done ==> final(self)@ == refilled(old(self)@),
            !done ==> final(self)@ == old(self)@,
            final(self).last_refill_nanos() == old(self).last_refill_nanos(),
            final(self).clock() == old(self).clock(),
            final(self).latest() == old(self).latest(),
    {
        if elapsed_nanos >= REFILL_INTERVAL_NANOS as u128 {
            let amount = interval_refill_bytes(self.bytes_per_second);
            self.high_priority_quota = self.high_priority_quota.wrapping_add(amount / 2);
            self.medium_priority_quota = self.medium_priority_quota.wrapping_add(amount / 3);
            self.low_priority_quota = self.low_priority_quota.wrapping_add(amount / 6);
            self.current_usage = 0;
            true
        } else {
            false
        }
    }

    /// The refill check at time `now`: refills if a refill interval has
    /// passed since the last refill, and then records `now` as the time of
    /// the last refill. Returns whether it refilled.
    pub fn refill_if_needed_at(&mut self, now: u64) -> (done: bool)
        ensures
            done == refill_due(old(self).last_refill_nanos(), now),
            check_outcome(*old(self), *final(self), now),
            final(self).latest() == max_u64(old(self).latest(), now),
    {
        if now > self.latest {
            self.latest = now;
        }
        let elapsed: u64 = if now >= self.last_refill_nanos {
            now - self.last_refill_nanos
        } else {
            0
        };
        if self.refill_at(elapsed as u128) {
            self.last_refill_nanos = now;
            true
        } else {
            false
        }
    }

    /// The refill check now.
    fn refill_if_needed(&mut self)
        ensures
            exists|now: u64|
                now >= old(self).latest() && final(self).latest() == now && #[trigger] check_outcome(
                    *old(self),
                    *final(self),
                    now,
                ),
    {
        let now = self.now();
        self.refill_if_needed_at(now);
    }

    /// Grants `bytes` in class `priority` if its quota covers them, without
    /// refilling first.
    pub fn consume(&mut self, bytes: u64, priority: IoPriority) -> (granted: bool)
        ensures
            granted == grants(old(self)@, bytes, priority),
            final(self)@ == after_request(old(self)@, bytes, priority),
            final(self).last_refill_nanos() == old(self).last_refill_nanos(),
            final(self).clock() == old(self).clock(),
            final(self).latest() == old(self).latest(),
    {
        let current = match priority {
            IoPriority::High => self.high_priority_quota,
            IoPriority::Medium => self.medium_priority_quota,
            IoPriority::Low => self.low_priority_quota,
        };
        if current < bytes {
            return false;
        }
        match priority {
            IoPriority::High => self.high_priority_quota = current - bytes,
            IoPriority::Medium => self.medium_priority_quota = current - bytes,
            IoPriority::Low => self.low_priority_quota = current - bytes,
        }
        self.current_usage = self.current_usage.wrapping_add(bytes);
        true
    }

    /// At time `now`: the refill check, then grants `bytes` in class
    /// `priority` if its quota covers them.
    pub fn request_at(&mut self, bytes: u64, priority: IoPriority, now: u64) -> (granted: bool)
        ensures
            request_outcome(*old(self), *final(self), bytes, priority, now, granted),
            final(self).latest() == max_u64(old(self).latest(), now),
    {
        self.refill_if_needed_at(now);
        self.consume(bytes, priority)
    }

    /// Refills if an interval has passed, then grants `bytes` in class
    /// `priority` if its quota covers them.
    pub fn request(&mut self, bytes: u64, priority: IoPriority) -> (granted: bool)
        ensures
            exists|now: u64|
                now >= old(self).latest() && final(self).latest() == now && #[trigger] request_outcome(
                    *old(self),
                    *final(self),
                    bytes,
                    priority,
                    now,
                    granted,
                ),
    {
        let now = self.now();
        self.request_at(bytes, priority, now)
    }

    /// Sets the rate; the quotas stay as they are until the next refill.
    pub fn set_rate(&mut self, bytes_per_second: u64)
        ensures
            final(self)@ == (LimiterState { bytes_per_second, ..old(self)@ }),
            final(self).last_refill_nanos() == old(self).last_refill_nanos(),
            final(self).clock() == old(self).clock(),
            final(self).latest() == old(self).latest(),
    {
        self.bytes_per_second = bytes_per_second;
    }

    /// The bytes granted since the last refill.
    pub fn get_current_usage(&self) -> (r: u64)
        ensures
            r == self@.usage,
    {
        self.current_usage
    }

    /// At time `now`: the refill check, then the quota of class `priority`.
    pub fn get_available_quota_at(&mut self, priority: IoPriority, now: u64) -> (r: u64)
        ensures
            quota_outcome(*old(self), *final(self), priority, now, r),
            final(self).latest() == max_u64(old(self).latest(), now),
    {
        self.refill_if_needed_at(now);
        match priority {
            IoPriority::High => self.high_priority_quota,
            IoPriority::Medium => self.medium_priority_quota,
            IoPriority::Low => self.low_priority_quota,
        }
    }

    /// Refills if an interval has passed, then returns the quota of class
    /// `priority`.
    pub fn get_available_quota(&mut self, priority: IoPriority) -> (r: u64)
        ensures
            exists|now: u64|
                now >= old(self).latest() && final(self).latest() == now && #[trigger] quota_outcome(
                    *old(self),
                    *final(self),
                    priority,
                    now,
                    r,
                ),
    {
        let now = self.now();
        self.get_available_quota_at(priority, now)
    }
}

/// The share of a refill amount that goes to class `p`.
pub open spec fn refill_share(amount: u64, p: IoPriority) -> u64 {
    match p {
        IoPriority::High => amount / 2,
        IoPriority::Medium => amount / 3,
        IoPriority::Low => amount / 6,
    }
}

/// A request made at least one refill interval after the last refill gets
/// its class's share of a refill first: when the quota plus that share
/// covers the request (and fits in a `u64`), the request is granted, the
/// quota ends at quota plus share minus the bytes, and the refill is
/// recorded at the request's time.
pub proof fn lemma_request_after_interval_is_refilled(
    before: IoRateLimiter,
    after: IoRateLimiter,
    bytes: u64,
    p: IoPriority,
    now: u64,
    granted: bool,
)
    requires
        request_outcome(before, after, bytes, p, now, granted),
        now >= before.last_refill_nanos(),
        now - before.last_refill_nanos() >= REFILL_INTERVAL_NANOS,
        quota_of(before@, p) + refill_share(refill_amount(before@.bytes_per_second), p) <= u64::MAX,
        bytes <= quota_of(before@, p) + refill_share(refill_amount(before@.bytes_per_second), p),
    ensures
        granted,
        quota_of(after@, p) == quota_of(before@, p) + refill_share(
            refill_amount(before@.bytes_per_second),
            p,
        ) - bytes,
        after@.usage == bytes,
        after.last_refill_nanos() == now,
{
}

/// A request made less than one refill interval after the last refill, at
/// a time not before it, gets no refill: it is granted exactly when the
/// quota held covers it, and the time of the last refill stays.
pub proof fn lemma_request_within_interval_is_not_refilled(
    before: IoRateLimiter,
    after: IoRateLimiter,
    bytes: u64,
    p: IoPriority,
    now: u64,
    granted: bool,
)
    requires
        request_outcome(before, after, bytes, p, now, granted),
        now >= before.last_refill_nanos(),
        now - before.last_refill_nanos() < REFILL_INTERVAL_NANOS,
    ensures
        granted == (bytes <= quota_of(before@, p)),
        granted ==> quota_of(after@, p) == quota_of(before@, p) - bytes,
        !granted ==> after@ == before@,
        after.last_refill_nanos() == before.last_refill_nanos(),
{
}

/// The number of refills that refill checks at the times `ts`, in order,
/// make when the last refill was at `last`.
pub open spec fn refills_in_run(last: u64, ts: Seq<u64>) -> nat
    decreases ts.len(),
{
    if ts.len() == 0 {
        0
    } else {
        (if refill_due(last, ts[0]) {
            1nat
        } else {
            0nat
        }) + refills_in_run(last_refill_after(last, ts[0]), ts.drop_first())
    }
}

/// Refills come at most once per interval: in a run of refill checks at
/// times that never go back, none earlier than the last refill, `k` refills
/// take at least `k` refill intervals from the last refill to the final
/// check.
pub proof fn lemma_one_refill_per_interval(last: u64, ts: Seq<u64>)
    requires
        ts.len() > 0,
        forall|i: int, j: int| 0 <= i <= j < ts.len() ==> ts[i] <= ts[j],
        last <= ts[0],
    ensures
        refills_in_run(last, ts) * REFILL_INTERVAL_NANOS <= ts[ts.len() - 1] - last,
    decreases ts.len(),
{
    let rest = ts.drop_first();
    let next = last_refill_after(last, ts[0]);
    let d: nat = if refill_due(last, ts[0]) {
        1
    } else {
        0
    };
    let c = refills_in_run(next, rest);
    assert(refills_in_run(last, ts) == d + c);
    if rest.len() > 0 {
        assert(rest[0] == ts[1]);
        assert(rest[rest.len() - 1] == ts[ts.len() - 1]);
        lemma_one_refill_per_interval(next, rest);
        assert(c * REFILL_INTERVAL_NANOS <= ts[ts.len() - 1] - next);
    } else {
        assert(c == 0);
    }
    assert((d + c) * REFILL_INTERVAL_NANOS == d * REFILL_INTERVAL_NANOS + c * REFILL_INTERVAL_NANOS)
        by (nonlinear_arith);
    assert(d * REFILL_INTERVAL_NANOS <= next - last);
}

/// The three starting quotas together never exceed one second's bytes.
pub proof fn lemma_initial_quotas_within_rate(bytes_per_second: u64)
    ensures
        bytes_per_second / 2 + bytes_per_second / 3 + bytes_per_second / 6 <= bytes_per_second,
{
}

/// A refill never hands out more than one interval's bytes in all.
pub proof fn lemma_refill_within_interval(bytes_per_second: u64)
    ensures
        refill_amount(bytes_per_second) / 2 + refill_amount(bytes_per_second) / 3
            + refill_amount(bytes_per_second) / 6 <= refill_amount(bytes_per_second),
{
}

/// A request touches only its own class: the other classes' quotas and the
/// rate are as before, and the usage grows by exactly the granted bytes.
pub proof fn lemma_request_isolated(s: LimiterState, bytes: u64, p: IoPriority, q: IoPriority)
    requires
        p != q,
    ensures
        quota_of(after_request(s, bytes, p), q) == quota_of(s, q),
        after_request(s, bytes, p).bytes_per_second == s.bytes_per_second,
        grants(s, bytes, p) ==> quota_of(after_request(s, bytes, p), p) + bytes == quota_of(s, p),
        grants(s, bytes, p) ==> after_request(s, bytes, p).usage == wrapping_add_u64(s.usage, bytes),
        !grants(s, bytes, p) ==> after_request(s, bytes, p) == s,
{
}

/// Granted requests never take more than the quota held: a class's quota
/// covers the bytes granted from it in any run of requests between refills.
pub proof fn lemma_granted_within_quota(s: LimiterState, b1: u64, b2: u64, p: IoPriority)
    requires
        grants(s, b1, p),
        grants(after_request(s, b1, p), b2, p),
    ensures
        b1 + b2 <= quota_of(s, p),
{
}

} // verus!
