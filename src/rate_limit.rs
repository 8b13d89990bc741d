//! A leaky-bucket rate limiter, as a state machine over a clock.
//!
//! Time is measured in nanoseconds since the bucket was built. The bucket
//! itself never sleeps: `try_acquire` either debits the tokens or names the
//! instant at which enough of them will have accrued, and the caller waits
//! until then and asks again. Exclusive access (`&mut self`) is the critical
//! section: refill and debit happen in one step.

use vstd::prelude::*;

verus! {

/// One second in nanoseconds.
pub const NANOS_PER_SEC: u64 = 1_000_000_000;

/// Requests a batch may start per refill window: the service allows five a
/// second, and the bucket starts full.
pub const BATCH_MAX: u32 = 5;

/// A batch regains one token every 100 ms.
pub const BATCH_REFILL_INTERVAL: u64 = 100_000_000;

const DEFAULT_MAX: u32 = 120;
const DEFAULT_TOKENS: u32 = 0;
const DEFAULT_REFILL_INTERVAL: u64 = NANOS_PER_SEC;
const DEFAULT_REFILL_AMOUNT: u32 = 1;

/// The leaky bucket.
#[derive(Clone, Copy, Debug)]
pub struct LeakyBucket {
    /// How many tokens this bucket can hold.
    max: u32,
    /// Interval at which the bucket gains tokens, in nanoseconds.
    refill_interval: u64,
    /// Amount of tokens gained per interval.
    refill_amount: u32,
    /// Current tokens in the bucket.
    tokens: u32,
    /// Last refill of the tokens, in nanoseconds since the bucket was built.
    last_refill: u64,
}

/// What an acquire attempt came to.
#[derive(Clone, Copy, Debug, PartialEq, Eq, Structural)]
pub enum Acquire {
    /// The tokens were debited.
    Granted,
    /// Not enough tokens: ask again once the clock reads this instant.
    WaitUntil(u64),
}

/// Whole refill intervals between `last` and `now` (none if `now` is earlier).
pub open spec fn refills_between(last: int, now: int, interval: int) -> int {
    if now > last {
        (now - last) / interval
    } else {
        0
    }
}

/// `tokens` raised by `amount` per refill, capped at `max`.
pub open spec fn capped_tokens(tokens: int, max: int, amount: int, refills: int) -> int {
    if tokens + amount * refills > max {
        max
    } else {
        tokens + amount * refills
    }
}

/// Whole refills needed to cover `shortfall` tokens: its ceiling quotient.
pub open spec fn refills_needed(shortfall: int, amount: int) -> int {
    if shortfall % amount > 0 {
        shortfall / amount + 1
    } else {
        shortfall / amount
    }
}

impl LeakyBucket {
    pub closed spec fn spec_max(self) -> nat {
        self.max as nat
    }

    pub closed spec fn spec_tokens(self) -> nat {
        self.tokens as nat
    }

    pub closed spec fn spec_refill_interval(self) -> nat {
        self.refill_interval as nat
    }

    pub closed spec fn spec_refill_amount(self) -> nat {
        self.refill_amount as nat
    }

    pub closed spec fn spec_last_refill(self) -> nat {
        self.last_refill as nat
    }

    /// The bucket's invariant: it never holds more than `max`, and it refills
    /// a positive amount at a positive interval.
    pub open spec fn wf(self) -> bool {
        &&& self.spec_tokens() <= self.spec_max()
        &&& self.spec_refill_interval() > 0
        &&& self.spec_refill_amount() > 0
    }

    /// Whether `other` has this bucket's capacity, interval and refill amount.
    pub open spec fn same_config(self, other: LeakyBucket) -> bool {
        &&& other.spec_max() == self.spec_max()
        &&& other.spec_refill_interval() == self.spec_refill_interval()
        &&& other.spec_refill_amount() == self.spec_refill_amount()
    }

    /// Whole refill intervals elapsed between the last refill and `now`.
    pub open spec fn refills_due(self, now: int) -> int {
        refills_between(self.spec_last_refill() as int, now, self.spec_refill_interval() as int)
    }

    /// The tokens held once the refills due at `now` are applied.
    pub open spec fn tokens_due(self, now: int) -> int {
        capped_tokens(
            self.spec_tokens() as int,
            self.spec_max() as int,
            self.spec_refill_amount() as int,
            self.refills_due(now),
        )
    }

    /// The last refill once the refills due at `now` are applied: moved by
    /// whole intervals only.
    pub open spec fn last_refill_due(self, now: int) -> int {
        self.spec_last_refill() + self.refills_due(now) * self.spec_refill_interval()
    }

    /// When an acquire of `amount` at `now` that falls short may be granted:
    /// enough whole intervals after the refilled last refill to cover the
    /// shortfall, or the clock's end if that lies beyond it.
    pub open spec fn wait_target(self, amount: int, now: int) -> int {
        let t = self.last_refill_due(now) + refills_needed(
            amount - self.tokens_due(now),
            self.spec_refill_amount() as int,
        ) * self.spec_refill_interval();
        if t > u64::MAX {
            u64::MAX as int
        } else {
            t
        }
    }

    /// The bucket after the refills that accrued by `now` are applied: tokens
    /// grow by whole intervals only, and `last_refill` moves by whole
    /// intervals, so a partial interval is carried forward.
    pub closed spec fn refilled(self, now: int) -> LeakyBucket {
        let k = refills_between(self.last_refill as int, now, self.refill_interval as int);
        LeakyBucket {
            tokens: capped_tokens(
                self.tokens as int,
                self.max as int,
                self.refill_amount as int,
                k,
            ) as u32,
            last_refill: (self.last_refill + k * self.refill_interval) as u64,
            ..self
        }
    }

    /// The state and answer of an acquire of `amount` at `now`.
    pub closed spec fn acquired(self, amount: int, now: int) -> (LeakyBucket, Acquire) {
        let r = self.refilled(now);
        if r.tokens >= amount {
            (LeakyBucket { tokens: (r.tokens - amount) as u32, ..r }, Acquire::Granted)
        } else {
            let needed = refills_needed(amount - r.tokens, r.refill_amount as int);
            let target = r.last_refill + needed * r.refill_interval;
            (r, Acquire::WaitUntil(if target > u64::MAX { u64::MAX } else { target as u64 }))
        }
    }

    fn new(max: u32, tokens: u32, refill_interval: u64, refill_amount: u32) -> (r: Self)
        requires
            tokens <= max,
            refill_interval > 0,
            refill_amount > 0,
        ensures
            r.wf(),
            r.spec_max() == max,
            r.spec_tokens() == tokens,
            r.spec_refill_interval() == refill_interval,
            r.spec_refill_amount() == refill_amount,
            r.spec_last_refill() == 0,
    {
        LeakyBucket { max, refill_interval, refill_amount, tokens, last_refill: 0 }
    }

    /// Construct a new leaky bucket through a builder.
    pub fn builder() -> (r: Builder)
        ensures
            r == Builder::new_spec(),
    {
        Builder::new()
    }

    /// The max number of tokens this bucket is configured for.
    pub fn max(&self) -> (r: u32)
        ensures
            r == self.spec_max(),
    {
        self.max
    }

    /// The tokens currently in the bucket, as of its last update.
    pub fn tokens(&self) -> (r: u32)
        ensures
            r == self.spec_tokens(),
    {
        self.tokens
    }

    /// The interval between refills, in nanoseconds.
    pub fn refill_interval(&self) -> (r: u64)
        ensures
            r == self.spec_refill_interval(),
    {
        self.refill_interval
    }

    /// The instant of the last applied refill.
    pub fn last_refill(&self) -> (r: u64)
        ensures
            r == self.spec_last_refill(),
    {
        self.last_refill
    }

    /// Applies the refills that accrued by `now` and returns the tokens held.
    pub fn update_tokens(&mut self, now: u64) -> (r: u32)
        requires
            old(self).wf(),
        ensures
            *final(self) == old(self).refilled(now as int),
            final(self).wf(),
            old(self).same_config(*final(self)),
            final(self).spec_tokens() == old(self).tokens_due(now as int),
            final(self).spec_last_refill() == old(self).last_refill_due(now as int),
            now >= old(self).spec_last_refill() ==> old(self).spec_last_refill()
                <= final(self).spec_last_refill() <= now < final(self).spec_last_refill()
                + final(self).spec_refill_interval(),
            r == final(self).spec_tokens(),
    {
        proof {
            lemma_refilled_exact(*self, now);
        }
        let k: u64 = if now > self.last_refill {
            (now - self.last_refill) / self.refill_interval
        } else {
            0
        };
        proof {
            let d = now - self.last_refill;
            if now > self.last_refill {
                lemma_whole_intervals_fit(d as int, self.refill_interval as int);
            }
        }
        let tokens: u32 = if k >= self.max as u64 {
            proof {
                lemma_mul_at_least(self.refill_amount as int, k as int);
            }
            self.max
        } else {
            proof {
                lemma_product_fits(self.refill_amount as int, k as int);
            }
            let grown: u64 = self.tokens as u64 + self.refill_amount as u64 * k;
            if grown > self.max as u64 {
                self.max
            } else {
                grown as u32
            }
        };
        self.tokens = tokens;
        self.last_refill = self.last_refill + k * self.refill_interval;
        self.tokens
    }

    /// Refills, then debits `amount` tokens if the bucket holds them;
    /// otherwise leaves them and answers when enough will have accrued.
    pub fn try_acquire(&mut self, amount: u32, now: u64) -> (r: Acquire)
        requires
            old(self).wf(),
            amount <= old(self).spec_max(),
        ensures
            (*final(self), r) == old(self).acquired(amount as int, now as int),
            final(self).wf(),
            old(self).same_config(*final(self)),
            final(self).spec_tokens() <= final(self).spec_max(),
            final(self).spec_last_refill() == old(self).last_refill_due(now as int),
            old(self).tokens_due(now as int) >= amount ==> {
                &&& r == Acquire::Granted
                &&& final(self).spec_tokens() == old(self).tokens_due(now as int) - amount
            },
            old(self).tokens_due(now as int) < amount ==> {
                &&& r == Acquire::WaitUntil(old(self).wait_target(amount as int, now as int) as u64)
                &&& final(self).spec_tokens() == old(self).tokens_due(now as int)
            },
    {
        proof {
            lemma_acquired_exact(*self, amount as int, now);
        }
        let current = self.update_tokens(now);
        if current >= amount {
            self.tokens = current - amount;
            Acquire::Granted
        } else {
            let shortfall = amount - current;
            let mut needed: u64 = (shortfall / self.refill_amount) as u64;
            proof {
                lemma_whole_intervals_fit(shortfall as int, self.refill_amount as int);
            }
            if shortfall % self.refill_amount > 0 {
                needed = needed + 1;
            }
            proof {
                lemma_product_fits_wide(needed as int, self.refill_interval as int);
            }
            let target: u128 = self.last_refill as u128
                + needed as u128 * self.refill_interval as u128;
            if target > u64::MAX as u128 {
                Acquire::WaitUntil(u64::MAX)
            } else {
                Acquire::WaitUntil(target as u64)
            }
        }
    }

    /// Acquires a single token.
    pub fn try_acquire_one(&mut self, now: u64) -> (r: Acquire)
        requires
            old(self).wf(),
            old(self).spec_max() >= 1,
        ensures
            (*final(self), r) == old(self).acquired(1, now as int),
            final(self).wf(),
            old(self).same_config(*final(self)),
            final(self).spec_last_refill() == old(self).last_refill_due(now as int),
            old(self).tokens_due(now as int) >= 1 ==> {
                &&& r == Acquire::Granted
                &&& final(self).spec_tokens() == old(self).tokens_due(now as int) - 1
            },
            old(self).tokens_due(now as int) < 1 ==> {
                &&& r == Acquire::WaitUntil(old(self).wait_target(1, now as int) as u64)
                &&& final(self).spec_tokens() == 0
            },
    {
        self.try_acquire(1, now)
    }
}

/// The refill step in the bucket's own terms: tokens grow by the whole
/// intervals due, capped at `max`; the last refill moves by those intervals
/// and, for a clock that has not run backward, stays within one interval of
/// `now`, so a partial interval is carried forward.
pub proof fn lemma_refilled_exact(b: LeakyBucket, now: u64)
    requires
        b.wf(),
    ensures
        b.refilled(now as int).wf(),
        b.same_config(b.refilled(now as int)),
        b.refilled(now as int).spec_tokens() == b.tokens_due(now as int),
        b.refilled(now as int).spec_last_refill() == b.last_refill_due(now as int),
        b.refills_due(now as int) >= 0,
        now >= b.spec_last_refill() ==> b.spec_last_refill() <= b.last_refill_due(now as int)
            <= now < b.last_refill_due(now as int) + b.spec_refill_interval(),
{
    let i = b.refill_interval as int;
    if now > b.last_refill {
        let d = now - b.last_refill;
        lemma_whole_intervals_fit(d, i);
        assert(d < (d / i) * i + i) by (nonlinear_arith)
            requires d >= 0, i > 0;
    } else {
        assert(0 * i == 0);
    }
    lemma_mul_nonneg(b.refill_amount as int, b.refills_due(now as int));
}

/// An acquire in the bucket's own terms: granted, and debiting exactly
/// `amount`, when the refilled tokens cover it; otherwise the tokens stay as
/// refilled and the answer is the instant that covers the shortfall.
pub proof fn lemma_acquired_exact(b: LeakyBucket, amount: int, now: u64)
    requires
        b.wf(),
        0 <= amount <= b.spec_max(),
    ensures
        b.acquired(amount, now as int).0.wf(),
        b.same_config(b.acquired(amount, now as int).0),
        b.acquired(amount, now as int).0.spec_last_refill() == b.last_refill_due(now as int),
        b.tokens_due(now as int) >= amount ==> {
            &&& b.acquired(amount, now as int).1 == Acquire::Granted
            &&& b.acquired(amount, now as int).0.spec_tokens() == b.tokens_due(now as int) - amount
        },
        b.tokens_due(now as int) < amount ==> {
            &&& b.acquired(amount, now as int).1 == Acquire::WaitUntil(
                b.wait_target(amount, now as int) as u64,
            )
            &&& b.acquired(amount, now as int).0.spec_tokens() == b.tokens_due(now as int)
        },
{
    lemma_refilled_exact(b, now);
}

proof fn lemma_mul_nonneg(a: int, k: int)
    requires
        a >= 0,
        k >= 0,
    ensures
        a * k >= 0,
{
    assert(a * k >= 0) by (nonlinear_arith)
        requires a >= 0, k >= 0;
}

proof fn lemma_whole_intervals_fit(d: int, interval: int)
    requires
        d >= 0,
        interval > 0,
    ensures
        0 <= d / interval,
        (d / interval) * interval <= d,
        d / interval <= d,
{
    assert((d / interval) * interval <= d) by (nonlinear_arith)
        requires d >= 0, interval > 0;
    assert(d / interval <= d) by (nonlinear_arith)
        requires d >= 0, interval > 0;
}

proof fn lemma_mul_at_least(amount: int, k: int)
    requires
        amount >= 1,
        k >= 0,
    ensures
        amount * k >= k,
{
    assert(amount * k >= k) by (nonlinear_arith)
        requires amount >= 1, k >= 0;
}

proof fn lemma_product_fits(amount: int, k: int)
    requires
        0 <= amount <= u32::MAX,
        0 <= k < u32::MAX,
    ensures
        amount * k + u32::MAX <= u64::MAX,
{
    assert(amount * k <= u32::MAX * u32::MAX) by (nonlinear_arith)
        requires 0 <= amount <= u32::MAX, 0 <= k < u32::MAX;
}

proof fn lemma_product_fits_wide(needed: int, interval: int)
    requires
        0 <= needed <= u32::MAX + 1,
        0 <= interval <= u64::MAX,
    ensures
        needed * interval + u64::MAX <= u128::MAX,
{
    assert(needed * interval <= (u32::MAX + 1) * u64::MAX) by (nonlinear_arith)
        requires 0 <= needed <= u32::MAX + 1, 0 <= interval <= u64::MAX;
}

/// The bucket that gates one batch of translations: full at the start, one
/// token back every 100 ms, five at most.
pub fn batch_bucket() -> (r: LeakyBucket)
    ensures
        r.wf(),
        r.spec_max() == BATCH_MAX,
        r.spec_tokens() == BATCH_MAX,
        r.spec_refill_interval() == BATCH_REFILL_INTERVAL,
        r.spec_refill_amount() == 1,
        r.spec_last_refill() == 0,
{
    LeakyBucket::builder().max(BATCH_MAX).refill_interval(BATCH_REFILL_INTERVAL).tokens(
        BATCH_MAX,
    ).build()
}

/// The bucket after a sequence of acquires, each an amount and an instant.
pub open spec fn run_acquires(b: LeakyBucket, reqs: Seq<(u32, u64)>) -> LeakyBucket
    decreases reqs.len(),
{
    if reqs.len() == 0 {
        b
    } else {
        let last = reqs.last();
        run_acquires(b, reqs.drop_last()).acquired(last.0 as int, last.1 as int).0
    }
}

/// One acquire keeps the invariant and the configuration.
pub proof fn lemma_acquire_keeps_invariant(b: LeakyBucket, amount: u32, now: u64)
    requires
        b.wf(),
    ensures
        b.acquired(amount as int, now as int).0.wf(),
        b.acquired(amount as int, now as int).0.spec_max() == b.spec_max(),
        b.acquired(amount as int, now as int).0.spec_refill_interval() == b.spec_refill_interval(),
        b.acquired(amount as int, now as int).0.spec_refill_amount() == b.spec_refill_amount(),
{
    if now > b.last_refill {
        lemma_whole_intervals_fit(now - b.last_refill, b.refill_interval as int);
    }
}

/// For every sequence of acquires, the tokens observed after each one stay
/// between zero and the bucket's capacity.
pub proof fn lemma_tokens_stay_within_capacity(b: LeakyBucket, reqs: Seq<(u32, u64)>)
    requires
        b.wf(),
    ensures
        run_acquires(b, reqs).wf(),
        run_acquires(b, reqs).spec_max() == b.spec_max(),
        run_acquires(b, reqs).spec_refill_interval() == b.spec_refill_interval(),
        run_acquires(b, reqs).spec_refill_amount() == b.spec_refill_amount(),
        0 <= run_acquires(b, reqs).spec_tokens() <= b.spec_max(),
    decreases reqs.len(),
{
    if reqs.len() > 0 {
        lemma_tokens_stay_within_capacity(b, reqs.drop_last());
        let last = reqs.last();
        lemma_acquire_keeps_invariant(run_acquires(b, reqs.drop_last()), last.0, last.1);
    }
}

/// The tokens an acquire debits: its amount if granted, else none.
pub open spec fn debited(amount: int, r: Acquire) -> int {
    if r is Granted {
        amount
    } else {
        0
    }
}

/// The tokens debited by a sequence of acquires, all told.
pub open spec fn total_debited(b: LeakyBucket, reqs: Seq<(u32, u64)>) -> int
    decreases reqs.len(),
{
    if reqs.len() == 0 {
        0
    } else {
        let last = reqs.last();
        total_debited(b, reqs.drop_last()) + debited(
            last.0 as int,
            run_acquires(b, reqs.drop_last()).acquired(last.0 as int, last.1 as int).1,
        )
    }
}

/// Acquires whose instants never run backward and none of which precedes the
/// bucket's last refill, each for at most the bucket's capacity.
pub open spec fn acquires_in_order(b: LeakyBucket, reqs: Seq<(u32, u64)>) -> bool {
    &&& forall|i: int| 0 <= i < reqs.len() ==> b.spec_last_refill() <= #[trigger] reqs[i].1
    &&& forall|i: int, j: int| 0 <= i <= j < reqs.len() ==> reqs[i].1 <= reqs[j].1
    &&& forall|i: int| 0 <= i < reqs.len() ==> #[trigger] reqs[i].0 <= b.spec_max()
}

proof fn lemma_quotient_at_least(x: int, d: int, i: int)
    requires
        x >= 0,
        d >= 0,
        i > 0,
        x * i <= d,
    ensures
        x <= d / i,
{
    assert(x <= d / i) by (nonlinear_arith)
        requires x >= 0, d >= 0, i > 0, x * i <= d;
}

proof fn lemma_debits_within_refills(b: LeakyBucket, reqs: Seq<(u32, u64)>) -> (m: int)
    requires
        b.wf(),
        acquires_in_order(b, reqs),
    ensures
        m >= 0,
        run_acquires(b, reqs).spec_last_refill() == b.spec_last_refill() + m
            * b.spec_refill_interval(),
        reqs.len() == 0 ==> m == 0,
        reqs.len() > 0 ==> run_acquires(b, reqs).spec_last_refill() <= reqs.last().1,
        reqs.len() > 0 ==> m <= b.refills_due(reqs.last().1 as int),
        run_acquires(b, reqs).spec_tokens() + total_debited(b, reqs) <= b.spec_tokens()
            + b.spec_refill_amount() * m,
    decreases reqs.len(),
{
    let i = b.spec_refill_interval() as int;
    let am = b.spec_refill_amount() as int;
    let l0 = b.spec_last_refill() as int;
    if reqs.len() == 0 {
        assert(0 * i == 0 && am * 0 == 0);
        0
    } else {
        let pre = reqs.drop_last();
        assert(acquires_in_order(b, pre)) by {
            assert forall|x: int| 0 <= x < pre.len() implies l0 <= #[trigger] pre[x].1 by {
                assert(pre[x] == reqs[x]);
            }
            assert forall|x: int| 0 <= x < pre.len() implies #[trigger] pre[x].0 <= b.spec_max() by {
                assert(pre[x] == reqs[x]);
            }
            assert forall|x: int, y: int| 0 <= x <= y < pre.len() implies pre[x].1 <= pre[y].1 by {
                assert(pre[x] == reqs[x] && pre[y] == reqs[y]);
            }
        }
        let m0 = lemma_debits_within_refills(b, pre);
        lemma_tokens_stay_within_capacity(b, pre);
        let s = run_acquires(b, pre);
        let last = reqs.last();
        let t = last.1;
        assert(reqs[reqs.len() - 1] == last);
        assert(last.0 <= b.spec_max());
        assert(s.spec_last_refill() <= t) by {
            if pre.len() > 0 {
                assert(pre.last() == reqs[reqs.len() - 2]);
            }
        }
        lemma_refilled_exact(s, t);
        lemma_acquired_exact(s, last.0 as int, t);
        let k = s.refills_due(t as int);
        let m = m0 + k;
        assert(m0 * i + k * i == m * i) by (nonlinear_arith)
            requires m == m0 + k;
        assert(am * m0 + am * k == am * m) by (nonlinear_arith)
            requires m == m0 + k;
        assert(s.tokens_due(t as int) <= s.spec_tokens() + am * k);
        assert(m * i <= t - l0);
        if t > l0 {
            lemma_quotient_at_least(m, t - l0, i);
        } else {
            assert(m * i <= 0);
            assert(m <= 0) by (nonlinear_arith)
                requires m * i <= 0, i > 0;
        }
        m
    }
}

/// However many acquires are made, one at a time as the critical section
/// orders them, the tokens they debit together never exceed what the bucket
/// held plus what accrued by the last one's instant: no set of debits
/// overdraws the bucket, and its tokens never fall below zero.
pub proof fn lemma_debits_never_overdraw(b: LeakyBucket, reqs: Seq<(u32, u64)>)
    requires
        b.wf(),
        acquires_in_order(b, reqs),
    ensures
        reqs.len() > 0 ==> total_debited(b, reqs) <= b.spec_tokens() + b.spec_refill_amount()
            * b.refills_due(reqs.last().1 as int),
        run_acquires(b, reqs).spec_tokens() >= 0,
{
    let m = lemma_debits_within_refills(b, reqs);
    if reqs.len() > 0 {
        let am = b.spec_refill_amount() as int;
        let k = b.refills_due(reqs.last().1 as int);
        assert(am * m <= am * k) by (nonlinear_arith)
            requires am >= 0, m <= k;
    }
}

/// An acquire that fell short is granted when made again at or after the
/// instant it named (unless that instant is the clock's end).
pub proof fn lemma_granted_after_wait(b: LeakyBucket, amount: u32, now: u64, later: u64)
    requires
        b.wf(),
        0 < amount <= b.spec_max(),
        b.tokens_due(now as int) < amount,
        b.wait_target(amount as int, now as int) < u64::MAX,
        later >= b.wait_target(amount as int, now as int),
    ensures
        b.acquired(amount as int, now as int).0.acquired(amount as int, later as int).1
            == Acquire::Granted,
{
    lemma_acquired_exact(b, amount as int, now);
    let s = b.acquired(amount as int, now as int).0;
    lemma_acquired_exact(s, amount as int, later);
    lemma_refilled_exact(s, later);
    let i = s.spec_refill_interval() as int;
    let am = s.spec_refill_amount() as int;
    let l = s.spec_last_refill() as int;
    let cur = s.spec_tokens() as int;
    let sh = amount - cur;
    let n = refills_needed(sh, am);
    assert(am * n >= sh && n >= 1) by (nonlinear_arith)
        requires
            sh > 0,
            am > 0,
            n == (if sh % am > 0 { sh / am + 1 } else { sh / am }),
    ;
    assert(later - l >= n * i);
    assert(later > l) by (nonlinear_arith)
        requires later - l >= n * i, n >= 1, i > 0;
    let k = s.refills_due(later as int);
    lemma_quotient_at_least(n, later - l, i);
    assert(am * k >= am * n) by (nonlinear_arith)
        requires am > 0, k >= n;
}

/// A bucket built full, at the instant it was built, grants its whole
/// capacity at once, and the next single token waits for the first refill,
/// one whole interval after the bucket was built.
pub proof fn lemma_full_bucket_round_trip(b: LeakyBucket, t1: u64, t2: u64)
    requires
        b.wf(),
        b.spec_max() >= 1,
        b.spec_tokens() == b.spec_max(),
        b.spec_last_refill() == 0,
        t1 <= t2 < b.spec_refill_interval(),
    ensures
        b.acquired(b.spec_max() as int, t1 as int).1 == Acquire::Granted,
        b.acquired(b.spec_max() as int, t1 as int).0.spec_tokens() == 0,
        b.acquired(b.spec_max() as int, t1 as int).0.acquired(1, t2 as int).1
            == Acquire::WaitUntil(b.spec_refill_interval() as u64),
{
    let i = b.refill_interval as int;
    assert((t1 as int) / i == 0 && (t2 as int) / i == 0) by (nonlinear_arith)
        requires 0 <= t1 < i, 0 <= t2 < i;
    let am = b.refill_amount as int;
    assert((if 1int % am > 0 { 1int / am + 1 } else { 1int / am }) == 1) by (nonlinear_arith)
        requires am >= 1;
    assert(am * 0 == 0 && 0 * i == 0 && 1 * i == i);
    assert(b.refilled(t1 as int) == b);
    let b1 = b.acquired(b.spec_max() as int, t1 as int).0;
    assert(b1.refilled(t2 as int) == b1);
}

/// Builder for a leaky bucket.
#[derive(Clone, Copy, Debug)]
pub struct Builder {
    max: Option<u32>,
    tokens: Option<u32>,
    refill_interval: Option<u64>,
    refill_amount: Option<u32>,
}

impl Builder {
    pub closed spec fn new_spec() -> Builder {
        Builder { max: None, tokens: None, refill_interval: None, refill_amount: None }
    }

    /// The configuration `build` uses: each value set, or its default.
    pub closed spec fn config(self) -> (u32, u32, u64, u32) {
        (
            match self.max { Some(m) => m, None => DEFAULT_MAX },
            match self.tokens { Some(t) => t, None => DEFAULT_TOKENS },
            match self.refill_interval { Some(i) => i, None => DEFAULT_REFILL_INTERVAL },
            match self.refill_amount { Some(a) => a, None => DEFAULT_REFILL_AMOUNT },
        )
    }

    /// Whether a built bucket would refill at a positive interval.
    pub open spec fn buildable(self) -> bool {
        self.config().2 > 0 && self.config().3 > 0
    }

    /// Create a new builder with all defaults.
    pub fn new() -> (r: Self)
        ensures
            r == Builder::new_spec(),
            r.config() == (120u32, 0u32, NANOS_PER_SEC, 1u32),
    {
        Builder { max: None, tokens: None, refill_interval: None, refill_amount: None }
    }

    /// Set the max value for the builder.
    pub fn max(self, max: u32) -> (r: Self)
        ensures
            r.config() == (max, self.config().1, self.config().2, self.config().3),
    {
        Builder { max: Some(max), ..self }
    }

    /// The number of tokens that the bucket should start with. If larger
    /// than `max` at build time, it saturates to `max`.
    pub fn tokens(self, tokens: u32) -> (r: Self)
        ensures
            r.config() == (self.config().0, tokens, self.config().2, self.config().3),
    {
        Builder { tokens: Some(tokens), ..self }
    }

    /// Set the refill interval, in nanoseconds.
    pub fn refill_interval(self, refill_interval: u64) -> (r: Self)
        ensures
            r.config() == (self.config().0, self.config().1, refill_interval, self.config().3),
    {
        Builder { refill_interval: Some(refill_interval), ..self }
    }

    /// Construct a new leaky bucket, with its last refill at time zero.
    pub fn build(self) -> (r: LeakyBucket)
        requires
            self.buildable(),
        ensures
            r.wf(),
            r.spec_max() == self.config().0,
            r.spec_tokens() == (if self.config().1 > self.config().0 {
                self.config().0
            } else {
                self.config().1
            }),
            r.spec_refill_interval() == self.config().2,
            r.spec_refill_amount() == self.config().3,
            r.spec_last_refill() == 0,
    {
        let max = match self.max { Some(m) => m, None => DEFAULT_MAX };
        let tokens = match self.tokens { Some(t) => t, None => DEFAULT_TOKENS };
        let refill_interval = match self.refill_interval {
            Some(i) => i,
            None => DEFAULT_REFILL_INTERVAL,
        };
        let refill_amount = match self.refill_amount {
            Some(a) => a,
            None => DEFAULT_REFILL_AMOUNT,
        };
        let tokens = if tokens > max { max } else { tokens };
        LeakyBucket::new(max, tokens, refill_interval, refill_amount)
    }
}

impl Default for Builder {
    fn default() -> (r: Self)
        ensures
            r == Builder::new_spec(),
    {
        Builder::new()
    }
}

} // verus!
