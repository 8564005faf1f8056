//! Global bandwidth limiting (a token bucket) and rolling speed measurement.
//!
//! Time is read from a monotonic clock started when the value is created and is
//! handled in nanoseconds; token amounts are kept in nano-bytes (bytes scaled by
//! 10^9) so that refills are exact.

use vstd::prelude::*;
use std::time::{Duration, Instant};

verus! {

#[verifier::external_type_specification]
#[verifier::external_body]
pub struct ExInstant(Instant);

/// `Instant::now`: the current reading of the monotonic clock.
#[verifier::external_body]
fn instant_now() -> (r: Instant) {
    Instant::now()
}

/// `Instant::elapsed`: the time passed since `origin`. It depends on the clock,
/// so nothing is stated of it.
#[verifier::external_body]
fn elapsed_since(origin: &Instant) -> (r: Duration) {
    origin.elapsed()
}

/// `Duration::as_nanos`; the duration is opaque here, so the value is not tied
/// to anything.
#[verifier::external_body]
fn duration_nanos(d: &Duration) -> (r: u128) {
    d.as_nanos()
}

proof fn lemma_product_fits(a: nat, b: nat)
    requires
        a <= u64::MAX,
        b <= u64::MAX,
    ensures
        a * b <= u128::MAX,
{
    assert(a * b <= (u64::MAX as nat) * (u64::MAX as nat)) by (nonlinear_arith)
        requires a <= u64::MAX, b <= u64::MAX;
}

/// Nanoseconds in a second.
pub const NANOS_PER_SEC: u64 = 1_000_000_000;

/// A monotonic clock that reads nanoseconds since its creation. It remembers
/// its last reading and never reads less than that.
pub struct Clock {
    origin: Instant,
    last: u64,
}

impl Clock {
    /// The last reading of the clock (zero before the first).
    pub closed spec fn reading(&self) -> u64 {
        self.last
    }

    /// Starts a clock at zero.
    pub fn start() -> (r: Self)
        ensures
            r.reading() == 0,
    {
        Clock { origin: instant_now(), last: 0 }
    }

    /// Nanoseconds since the clock started (saturating at `u64::MAX`). The
    /// value depends on the time; it is never less than the previous reading,
    /// and becomes the clock's last reading.
    pub fn now_nanos(&mut self) -> (r: u64)
        ensures
            r >= old(self).reading(),
            final(self).reading() == r,
    {
        let d = elapsed_since(&self.origin);
        let n = duration_nanos(&d);
        let read = if n > u64::MAX as u128 {
            u64::MAX
        } else {
            n as u64
        };
        // `Instant` is monotonic, so this only guards the stated property.
        if read > self.last {
            self.last = read;
        }
        self.last
    }
}

/// A token bucket with a one-second burst: it holds at most `rate` bytes of
/// tokens and refills at `rate` bytes per second.
pub struct TokenBucket {
    rate: u64,
    /// Tokens, in nano-bytes.
    tokens: u128,
    /// Clock reading of the last refill, in nanoseconds.
    last_refill: u64,
    clock: Clock,
    /// All bytes granted so far.
    granted: Ghost<nat>,
}

/// The bucket's capacity in nano-bytes.
pub open spec fn capacity_of(rate: u64) -> nat {
    (rate as nat) * (NANOS_PER_SEC as nat)
}

/// Tokens after a refill at `now`: the tokens earned since the last refill are
/// added, up to the capacity.
pub open spec fn refilled_tokens(rate: u64, tokens: nat, last_refill: u64, now: u64) -> nat {
    let earned = if now > last_refill { ((now - last_refill) as nat) * (rate as nat) } else { 0nat };
    if earned > 0 {
        if tokens + earned <= capacity_of(rate) { tokens + earned } else { capacity_of(rate) }
    } else {
        tokens
    }
}

/// The clock reading that a refill at `now` records: `now` when tokens were
/// earned, else the previous reading.
pub open spec fn refilled_at(rate: u64, last_refill: u64, now: u64) -> u64 {
    if now > last_refill && rate > 0 { now } else { last_refill }
}

/// Refilling never adds more than the rate times the time since the last
/// refill.
proof fn lemma_refill_within_earned(rate: u64, tokens: nat, last: u64, now: u64)
    ensures
        refilled_at(rate, last, now) >= last,
        refilled_tokens(rate, tokens, last, now) + (rate as nat) * (last as nat) <= tokens
            + (rate as nat) * (refilled_at(rate, last, now) as nat),
{
    if now > last {
        let e = (now - last) as nat;
        assert((rate as nat) * (now as nat) == (rate as nat) * (last as nat) + e * (rate as nat))
            by (nonlinear_arith) requires now as nat == last as nat + e;
        if rate == 0 {
            assert(e * (rate as nat) == 0) by (nonlinear_arith) requires rate == 0;
        }
    }
}

impl TokenBucket {
    /// Bytes per second.
    pub closed spec fn rate_spec(&self) -> u64 {
        self.rate
    }

    /// Tokens in nano-bytes.
    pub closed spec fn tokens_spec(&self) -> nat {
        self.tokens as nat
    }

    /// Clock reading (nanoseconds) of the last refill.
    pub closed spec fn last_refill_spec(&self) -> u64 {
        self.last_refill
    }

    /// Total bytes granted since creation.
    pub closed spec fn granted_spec(&self) -> nat {
        self.granted@
    }

    /// The last reading of the bucket's clock (nanoseconds).
    pub closed spec fn clock_reading(&self) -> u64 {
        self.clock.reading()
    }

    /// Tokens never exceed the capacity, and what was granted plus what is held
    /// never exceeds the initial burst plus what the elapsed time has earned.
    pub closed spec fn wf(&self) -> bool {
        &&& (self.tokens as nat) <= capacity_of(self.rate)
        &&& self.granted@ * (NANOS_PER_SEC as nat) + (self.tokens as nat) <= capacity_of(self.rate)
            + (self.rate as nat) * (self.last_refill as nat)
    }

    /// A full bucket for `rate_bytes_per_sec`.
    pub fn new(rate_bytes_per_sec: u64) -> (r: Self)
        ensures
            r.wf(),
            r.rate_spec() == rate_bytes_per_sec,
            r.tokens_spec() == capacity_of(rate_bytes_per_sec),
            r.last_refill_spec() == 0,
            r.granted_spec() == 0,
            r.clock_reading() == 0,
    {
        proof {
            lemma_product_fits(rate_bytes_per_sec as nat, NANOS_PER_SEC as nat);
        }
        let cap = (rate_bytes_per_sec as u128) * (NANOS_PER_SEC as u128);
        TokenBucket {
            rate: rate_bytes_per_sec,
            tokens: cap,
            last_refill: 0,
            clock: Clock::start(),
            granted: Ghost(0),
        }
    }

    /// Reads the clock, refills for the time passed, then takes `amount` bytes of
    /// tokens if the bucket holds that many; returns whether it did. The reading
    /// used is never less than the previous one.
    pub fn acquire(&mut self, amount: u64) -> (ok: bool)
        requires
            old(self).wf(),
        ensures
            final(self).wf(),
            final(self).rate_spec() == old(self).rate_spec(),
            ok ==> final(self).granted_spec() == old(self).granted_spec() + amount,
            !ok ==> final(self).granted_spec() == old(self).granted_spec(),
            follows(*old(self), *final(self)),
            exists|now: u64| #![trigger refilled_at(old(self).rate_spec(), old(self).last_refill_spec(), now)] {
                let refilled = refilled_tokens(
                    old(self).rate_spec(),
                    old(self).tokens_spec(),
                    old(self).last_refill_spec(),
                    now,
                );
                &&& final(self).last_refill_spec() == refilled_at(
                    old(self).rate_spec(),
                    old(self).last_refill_spec(),
                    now,
                )
                &&& ok == (refilled >= (amount as nat) * (NANOS_PER_SEC as nat))
                &&& ok ==> final(self).tokens_spec() == refilled - (amount as nat) * (
                NANOS_PER_SEC as nat)
                &&& !ok ==> final(self).tokens_spec() == refilled
                &&& now >= old(self).clock_reading()
                &&& final(self).clock_reading() == now
            },
    {
        let now = self.clock.now_nanos();
        let ok = self.acquire_at(now, amount);
        assert(refilled_at(old(self).rate_spec(), old(self).last_refill_spec(), now)
            == final(self).last_refill_spec());
        ok
    }

    /// `acquire` with the clock reading `now` (nanoseconds) given.
    pub fn acquire_at(&mut self, now: u64, amount: u64) -> (ok: bool)
        requires
            old(self).wf(),
        ensures
            final(self).wf(),
            final(self).rate_spec() == old(self).rate_spec(),
            final(self).last_refill_spec() == refilled_at(
                old(self).rate_spec(),
                old(self).last_refill_spec(),
                now,
            ),
            ok == (refilled_tokens(
                old(self).rate_spec(),
                old(self).tokens_spec(),
                old(self).last_refill_spec(),
                now,
            ) >= (amount as nat) * (NANOS_PER_SEC as nat)),
            ok ==> final(self).tokens_spec() == refilled_tokens(
                old(self).rate_spec(),
                old(self).tokens_spec(),
                old(self).last_refill_spec(),
                now,
            ) - (amount as nat) * (NANOS_PER_SEC as nat),
            !ok ==> final(self).tokens_spec() == refilled_tokens(
                old(self).rate_spec(),
                old(self).tokens_spec(),
                old(self).last_refill_spec(),
                now,
            ),
            ok ==> final(self).granted_spec() == old(self).granted_spec() + amount,
            !ok ==> final(self).granted_spec() == old(self).granted_spec(),
            final(self).clock_reading() == old(self).clock_reading(),
            follows(*old(self), *final(self)),
    {
        proof {
            lemma_refill_within_earned(self.rate, self.tokens as nat, self.last_refill, now);
        }
        self.refill(now);
        let need = (amount as u128) * (NANOS_PER_SEC as u128);
        if self.tokens >= need {
            self.tokens = self.tokens - need;
            self.granted = Ghost(self.granted@ + amount as nat);
            true
        } else {
            false
        }
    }

    fn refill(&mut self, now: u64)
        requires
            old(self).wf(),
        ensures
            final(self).wf(),
            final(self).rate == old(self).rate,
            final(self).granted == old(self).granted,
            final(self).clock == old(self).clock,
            final(self).tokens as nat == refilled_tokens(
                old(self).rate,
                old(self).tokens as nat,
                old(self).last_refill,
                now,
            ),
            final(self).last_refill == refilled_at(old(self).rate, old(self).last_refill, now),
    {
        if now > self.last_refill && self.rate > 0 {
            let elapsed = now - self.last_refill;
            proof {
                lemma_product_fits(self.rate as nat, NANOS_PER_SEC as nat);
            }
            let cap = (self.rate as u128) * (NANOS_PER_SEC as u128);
            // Beyond one second the bucket is full whatever the exact time.
            let counted = if elapsed > NANOS_PER_SEC { NANOS_PER_SEC } else { elapsed };
            proof {
                assert((counted as nat) * (self.rate as nat) <= (NANOS_PER_SEC as nat) * (self.rate as nat))
                    by (nonlinear_arith) requires counted <= NANOS_PER_SEC;
            }
            let earned = (counted as u128) * (self.rate as u128);
            proof {
                let r = self.rate as nat;
                let e = elapsed as nat;
                assert(earned as nat == (counted as nat) * r) by (nonlinear_arith)
                    requires earned as nat == (counted as nat) * r, counted <= 1_000_000_000u64;
                assert(e * r >= (counted as nat) * r) by (nonlinear_arith)
                    requires e >= counted as nat;
                assert(e * r > 0) by (nonlinear_arith)
                    requires e > 0, r > 0;
                assert(elapsed > NANOS_PER_SEC ==> e * r >= capacity_of(self.rate)) by (nonlinear_arith)
                    requires elapsed > NANOS_PER_SEC ==> e >= 1_000_000_000nat,
                        capacity_of(self.rate) == r * 1_000_000_000nat;
                assert((self.rate as nat) * (now as nat) == (self.rate as nat) * (self.last_refill as nat) + e * r) by (nonlinear_arith)
                    requires now as nat == self.last_refill as nat + e, r == self.rate as nat;
            }
            if self.tokens + earned <= cap {
                self.tokens = self.tokens + earned;
            } else {
                self.tokens = cap;
            }
            self.last_refill = now;
        }
    }

    /// The rate-limiting guarantee: all bytes ever granted are at most one
    /// second's burst plus the rate times the time elapsed up to the last refill.
    pub proof fn lemma_granted_within_rate(&self)
        requires
            self.wf(),
        ensures
            self.granted_spec() * (NANOS_PER_SEC as nat) <= capacity_of(self.rate_spec())
                + (self.rate_spec() as nat) * (self.last_refill_spec() as nat),
            self.tokens_spec() <= capacity_of(self.rate_spec()),
    {
    }
}

/// State `b` of a bucket follows state `a` through acquires: same rate, no
/// earlier refill, no fewer bytes granted, and what was granted and held since
/// `a` is covered by what `a` held plus what the time between the two refills
/// earned.
pub open spec fn follows(a: TokenBucket, b: TokenBucket) -> bool {
    &&& b.rate_spec() == a.rate_spec()
    &&& b.last_refill_spec() >= a.last_refill_spec()
    &&& b.granted_spec() >= a.granted_spec()
    &&& b.granted_spec() * (NANOS_PER_SEC as nat) + b.tokens_spec() + (a.rate_spec() as nat) * (
    a.last_refill_spec() as nat) <= a.granted_spec() * (NANOS_PER_SEC as nat) + a.tokens_spec() + (
    a.rate_spec() as nat) * (b.last_refill_spec() as nat)
}

/// Following is transitive, so it holds between any two states of a run of
/// acquires.
pub proof fn lemma_follows_transitive(a: TokenBucket, b: TokenBucket, c: TokenBucket)
    requires
        follows(a, b),
        follows(b, c),
    ensures
        follows(a, c),
{
}

/// The rate limit over any interval: between two states of one bucket, the
/// bytes granted are at most one second's burst plus the rate times the time
/// between the two states' refills.
pub proof fn lemma_granted_between(a: TokenBucket, b: TokenBucket)
    requires
        a.wf(),
        follows(a, b),
    ensures
        (b.granted_spec() - a.granted_spec()) * (NANOS_PER_SEC as nat) <= capacity_of(a.rate_spec())
            + (a.rate_spec() as nat) * ((b.last_refill_spec() - a.last_refill_spec()) as nat),
{
    let r = a.rate_spec() as nat;
    let la = a.last_refill_spec() as nat;
    let lb = b.last_refill_spec() as nat;
    assert(r * lb == r * la + r * ((lb - la) as nat)) by (nonlinear_arith)
        requires lb >= la;
    assert((b.granted_spec() - a.granted_spec()) * (NANOS_PER_SEC as nat) == b.granted_spec() * (
    NANOS_PER_SEC as nat) - a.granted_spec() * (NANOS_PER_SEC as nat)) by (nonlinear_arith);
    a.lemma_granted_within_rate();
}

/// Total bytes of a list of `(clock reading, bytes)` samples.
pub open spec fn sum_bytes(samples: Seq<(u64, u64)>) -> nat
    decreases samples.len(),
{
    if samples.len() == 0 {
        0
    } else {
        sum_bytes(samples.drop_last()) + samples.last().1 as nat
    }
}

/// The age of a sample taken at `time`, seen at `now` (zero when the sample is
/// not older than `now`).
pub open spec fn age(now: u64, time: u64) -> nat {
    if now > time { (now - time) as nat } else { 0 }
}

/// How many leading samples are older than the window at `now`: the ones that a
/// cleanup drops.
pub open spec fn stale_prefix_len(samples: Seq<(u64, u64)>, now: u64, window: nat) -> nat
    decreases samples.len(),
{
    if samples.len() > 0 && age(now, samples[0].0) > window {
        1 + stale_prefix_len(samples.drop_first(), now, window)
    } else {
        0
    }
}

/// Clock readings that never go back.
pub open spec fn sorted_by_time(samples: Seq<(u64, u64)>) -> bool {
    forall|i: int, j: int| 0 <= i <= j < samples.len() ==> samples[i].0 <= samples[j].0
}

/// The rolling speed of a window of samples: their total bytes when they span
/// less than a second, else the total divided by the span in seconds (rounded
/// down).
pub open spec fn speed_of(samples: Seq<(u64, u64)>) -> nat {
    if samples.len() == 0 {
        0
    } else {
        let span = age(samples.last().0, samples[0].0);
        if span < NANOS_PER_SEC as nat {
            sum_bytes(samples)
        } else {
            sum_bytes(samples) * (NANOS_PER_SEC as nat) / span
        }
    }
}

proof fn lemma_stale_prefix_bound(samples: Seq<(u64, u64)>, now: u64, window: nat)
    ensures
        stale_prefix_len(samples, now, window) <= samples.len(),
        forall|i: int|
            0 <= i < stale_prefix_len(samples, now, window) ==> age(now, #[trigger] samples[i].0)
                > window,
        stale_prefix_len(samples, now, window) < samples.len() ==> age(
            now,
            samples[stale_prefix_len(samples, now, window) as int].0,
        ) <= window,
    decreases samples.len(),
{
    if samples.len() > 0 && age(now, samples[0].0) > window {
        lemma_stale_prefix_bound(samples.drop_first(), now, window);
        assert forall|i: int| 0 <= i < stale_prefix_len(samples, now, window) implies age(
            now,
            #[trigger] samples[i].0,
        ) > window by {
            if i > 0 {
                assert(samples[i] == samples.drop_first()[i - 1]);
            }
        }
    }
}

/// Bytes read per second over a sliding window of recent samples.
pub struct SpeedMonitor {
    window_nanos: u128,
    samples: Vec<(u64, u64)>,
    clock: Clock,
}

impl SpeedMonitor {
    /// The window length in nanoseconds.
    pub closed spec fn window_spec(&self) -> nat {
        self.window_nanos as nat
    }

    /// The retained samples, oldest first: `(clock reading in nanoseconds, bytes)`.
    pub closed spec fn samples_spec(&self) -> Seq<(u64, u64)> {
        self.samples@
    }

    /// The last reading of the monitor's clock (nanoseconds).
    pub closed spec fn clock_reading(&self) -> u64 {
        self.clock.reading()
    }

    /// A monitor with a window of `window_secs` seconds and no samples.
    pub fn new(window_secs: u64) -> (r: Self)
        ensures
            r.window_spec() == (window_secs as nat) * (NANOS_PER_SEC as nat),
            r.samples_spec() == Seq::<(u64, u64)>::empty(),
            r.clock_reading() == 0,
    {
        proof {
            lemma_product_fits(window_secs as nat, NANOS_PER_SEC as nat);
        }
        SpeedMonitor {
            window_nanos: (window_secs as u128) * (NANOS_PER_SEC as u128),
            samples: Vec::new(),
            clock: Clock::start(),
        }
    }

    /// Records `bytes` read now and drops the samples that fell out of the
    /// window. The clock reading used is never less than the previous one, so
    /// samples recorded this way stay in time order and within the window.
    pub fn add_sample(&mut self, bytes: u64)
        ensures
            final(self).window_spec() == old(self).window_spec(),
            exists|now: u64|
                #![trigger old(self).samples_spec().push((now, bytes))]
                {
                    &&& now >= old(self).clock_reading()
                    &&& final(self).clock_reading() == now
                    &&& final(self).samples_spec() == old(self).samples_spec().push((now, bytes)).skip(
                        stale_prefix_len(
                            old(self).samples_spec().push((now, bytes)),
                            now,
                            old(self).window_spec(),
                        ) as int,
                    )
                },
            final(self).samples_spec().len() > 0,
            final(self).samples_spec().last().1 == bytes,
            final(self).samples_spec().last().0 == final(self).clock_reading(),
            sorted_by_time(old(self).samples_spec()) && (old(self).samples_spec().len() == 0
                || old(self).samples_spec().last().0 <= old(self).clock_reading()) ==> {
                &&& sorted_by_time(final(self).samples_spec())
                &&& forall|i: int|
                    0 <= i < final(self).samples_spec().len() ==> age(
                        final(self).clock_reading(),
                        #[trigger] final(self).samples_spec()[i].0,
                    ) <= final(self).window_spec()
            },
    {
        let now = self.clock.now_nanos();
        self.add_sample_at(now, bytes);
        proof {
            let all = old(self).samples_spec().push((now, bytes));
            assert(self.samples_spec() == all.skip(
                stale_prefix_len(all, now, old(self).window_spec()) as int,
            ));
        }
    }

    /// `add_sample` with the clock reading `now` (nanoseconds) given: appends
    /// `(now, bytes)`, then drops leading samples older than the window.
    pub fn add_sample_at(&mut self, now: u64, bytes: u64)
        ensures
            final(self).window_spec() == old(self).window_spec(),
            final(self).samples_spec() == old(self).samples_spec().push((now, bytes)).skip(
                stale_prefix_len(
                    old(self).samples_spec().push((now, bytes)),
                    now,
                    old(self).window_spec(),
                ) as int,
            ),
            // The new sample is never dropped.
            final(self).samples_spec().len() > 0,
            final(self).samples_spec().last() == (now, bytes),
            final(self).clock_reading() == old(self).clock_reading(),
            // With a clock that never goes back, every retained sample is
            // within the window.
            sorted_by_time(old(self).samples_spec()) && (old(self).samples_spec().len() == 0
                || old(self).samples_spec().last().0 <= now) ==> {
                &&& sorted_by_time(final(self).samples_spec())
                &&& forall|i: int|
                    0 <= i < final(self).samples_spec().len() ==> age(
                        now,
                        #[trigger] final(self).samples_spec()[i].0,
                    ) <= final(self).window_spec()
            },
    {
        self.samples.push((now, bytes));
        self.cleanup(now);
        proof {
            let all = old(self).samples_spec().push((now, bytes));
            let k = stale_prefix_len(all, now, self.window_nanos as nat);
            lemma_stale_prefix_bound(all, now, self.window_nanos as nat);
            assert(age(now, all.last().0) == 0);
            assert(self.samples@ =~= all.skip(k as int));
            if sorted_by_time(old(self).samples_spec()) && (old(self).samples_spec().len() == 0
                || old(self).samples_spec().last().0 <= now) {
                assert(sorted_by_time(all));
                if k < all.len() {
                    assert forall|i: int| 0 <= i < self.samples@.len() implies age(
                        now,
                        #[trigger] self.samples@[i].0,
                    ) <= self.window_nanos as nat by {
                        assert(self.samples@[i] == all[k + i]);
                        assert(all[k as int].0 <= all[k + i].0);
                    }
                }
            }
        }
    }

    fn cleanup(&mut self, now: u64)
        ensures
            final(self).window_nanos == old(self).window_nanos,
            final(self).clock == old(self).clock,
            final(self).samples@ == old(self).samples@.skip(
                stale_prefix_len(old(self).samples@, now, old(self).window_nanos as nat) as int,
            ),
    {
        let ghost all = self.samples@;
        let ghost window = self.window_nanos as nat;
        let ghost mut dropped: nat = 0;
        proof {
            assert(all.skip(0) =~= all);
        }
        while self.samples.len() > 0
            invariant
                self.window_nanos as nat == window,
                self.clock == old(self).clock,
                all == old(self).samples@,
                window == old(self).window_nanos as nat,
                dropped <= all.len(),
                self.samples@ == all.skip(dropped as int),
                stale_prefix_len(all, now, window) == dropped + stale_prefix_len(
                    self.samples@,
                    now,
                    window,
                ),
            ensures
                self.window_nanos as nat == window,
                self.clock == old(self).clock,
                self.samples@ == all.skip(stale_prefix_len(all, now, window) as int),
            decreases self.samples.len(),
        {
            let first_time = self.samples[0].0;
            let elapsed: u64 = if now > first_time { now - first_time } else { 0 };
            if (elapsed as u128) > self.window_nanos {
                let ghost before = self.samples@;
                self.samples.remove(0);
                proof {
                    assert(self.samples@ =~= before.drop_first());
                    assert(all.skip((dropped + 1) as int) =~= before.drop_first());
                    dropped = dropped + 1;
                }
            } else {
                break;
            }
        }
    }

    /// The bytes held in the window.
    pub fn window_total(&self) -> (r: u128)
        ensures
            r as nat == sum_bytes(self.samples_spec()),
    {
        let n = self.samples.len();
        let mut total: u128 = 0;
        for i in 0..n
            invariant
                n == self.samples@.len(),
                total as nat == sum_bytes(self.samples@.take(i as int)),
                total as nat <= (i as nat) * (u64::MAX as nat),
        {
            assert(self.samples@.take(i + 1).drop_last() =~= self.samples@.take(i as int));
            assert((i as nat) * (u64::MAX as nat) <= (usize::MAX as nat) * (u64::MAX as nat))
                by (nonlinear_arith) requires i <= usize::MAX;
            assert(((i + 1) as nat) * (u64::MAX as nat) == (i as nat) * (u64::MAX as nat) + u64::MAX as nat)
                by (nonlinear_arith);
            total = total + (self.samples[i].1 as u128);
        }
        assert(self.samples@.take(n as int) =~= self.samples@);
        total
    }

    /// The current speed in bytes per second: 0 with no samples; the window's
    /// total bytes when the samples span less than a second; else the total
    /// divided by the span in seconds, rounded down.
    pub fn current_speed(&self) -> (r: u64)
        requires
            sum_bytes(self.samples_spec()) <= u64::MAX,
        ensures
            r as nat == speed_of(self.samples_spec()),
    {
        if self.samples.len() == 0 {
            return 0;
        }
        let total = self.window_total();
        let first = self.samples[0].0;
        let last = self.samples[self.samples.len() - 1].0;
        let span: u64 = if last > first { last - first } else { 0 };
        if span < NANOS_PER_SEC {
            return total as u64;
        }
        proof {
            lemma_product_fits(total as nat, NANOS_PER_SEC as nat);
            assert((total as nat) * (NANOS_PER_SEC as nat) / (span as nat) <= (total as nat))
                by (nonlinear_arith) requires span >= NANOS_PER_SEC;
        }
        let speed = (total * (NANOS_PER_SEC as u128)) / (span as u128);
        speed as u64
    }
}

} // verus!
