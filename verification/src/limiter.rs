//! Sliding-window rate limiter for the client's outbound sends.
//!
//! Every send attempt carries a monotonic timestamp in milliseconds.
//! At most [`MAX_BURST`] sends are allowed inside a trailing
//! [`WINDOW_MS`] span; one more trips a [`COOLDOWN_MS`] cooldown during
//! which every attempt is rejected without being recorded.

use vstd::prelude::*;

verus! {

/// Length of the trailing window, in milliseconds.
pub const WINDOW_MS: u64 = 5000;

/// Length of a cooldown after a burst violation, in milliseconds.
pub const COOLDOWN_MS: u64 = 10000;

/// Number of sends the window may hold before the next one trips the
/// cooldown.
pub const MAX_BURST: usize = 10;

/// Answer of the limiter to one send attempt.
#[derive(Clone, Copy, Debug, PartialEq, Eq, Structural)]
pub enum SendVerdict {
    /// Hand the message to the network and echo it locally.
    Accepted,
    /// A cooldown is running; this many milliseconds remain.
    CoolingDown { remaining_ms: u64 },
    /// This attempt overflowed the window and started a cooldown.
    Throttled,
}

/// Mathematical value of a [`RateLimiter`].
pub struct LimiterModel {
    pub window: Seq<u64>,
    pub cooldown_until: Option<u64>,
}

/// Client-side outbound throttle: the timestamps of recent sends plus
/// an optional cooldown deadline.
pub struct RateLimiter {
    window: Vec<u64>,
    cooldown_until: Option<u64>,
}

/// Are the timestamps in `s` nondecreasing?
pub open spec fn time_ordered(s: Seq<u64>) -> bool {
    forall|i: int, j: int| 0 <= i <= j < s.len() ==> #[trigger] s[i] <= #[trigger] s[j]
}

/// Is every timestamp in `s` at most `now`?
pub open spec fn all_at_most(s: Seq<u64>, now: u64) -> bool {
    forall|i: int| 0 <= i < s.len() ==> #[trigger] s[i] <= now
}

/// `w` with every timestamp older than [`WINDOW_MS`] before `now`
/// dropped, keeping the order of the rest.
pub open spec fn pruned(w: Seq<u64>, now: u64) -> Seq<u64>
    decreases w.len(),
{
    if w.len() == 0 {
        Seq::empty()
    } else {
        let rest = pruned(w.drop_last(), now);
        if w.last() + WINDOW_MS >= now {
            rest.push(w.last())
        } else {
            rest
        }
    }
}

/// The window after recording an attempt at `now`: `now` goes to the
/// back, and everything older than [`WINDOW_MS`] is dropped.
pub open spec fn window_after(w: Seq<u64>, now: u64) -> Seq<u64> {
    pruned(w.push(now), now)
}

/// Is a cooldown still running at `now`?
pub open spec fn cooling(s: LimiterModel, now: u64) -> bool {
    s.cooldown_until matches Some(u) && now < u
}

/// One attempt of the limiter as a mathematical step function.
pub open spec fn limiter_step(s: LimiterModel, now: u64) -> (LimiterModel, SendVerdict) {
    if cooling(s, now) {
        (s, SendVerdict::CoolingDown { remaining_ms: (s.cooldown_until->0 - now) as u64 })
    } else {
        let w = window_after(s.window, now);
        if w.len() > MAX_BURST {
            (
                LimiterModel { window: w, cooldown_until: Some((now + COOLDOWN_MS) as u64) },
                SendVerdict::Throttled,
            )
        } else {
            (LimiterModel { window: w, cooldown_until: None }, SendVerdict::Accepted)
        }
    }
}

/// A limiter as a session starts: empty window, no cooldown.
pub open spec fn fresh_limiter() -> LimiterModel {
    LimiterModel { window: Seq::empty(), cooldown_until: None }
}

/// The limiter state after the first `k` of the attempts in `times`,
/// starting from a fresh limiter.
pub open spec fn state_after(times: Seq<u64>, k: int) -> LimiterModel
    decreases k,
{
    if k <= 0 {
        fresh_limiter()
    } else {
        limiter_step(state_after(times, k - 1), times[k - 1]).0
    }
}

/// The verdict of attempt `k` (counting from zero) in `times`,
/// starting from a fresh limiter.
pub open spec fn verdict_at(times: Seq<u64>, k: int) -> SendVerdict {
    limiter_step(state_after(times, k), times[k]).1
}

/// Pruning drops nothing when every entry is still inside the window.
proof fn lemma_pruned_keeps_all(w: Seq<u64>, now: u64)
    requires
        forall|i: int| 0 <= i < w.len() ==> #[trigger] w[i] + WINDOW_MS >= now,
    ensures
        pruned(w, now) == w,
    decreases w.len(),
{
    if w.len() > 0 {
        lemma_pruned_keeps_all(w.drop_last(), now);
        assert(pruned(w, now) =~= w);
    } else {
        assert(pruned(w, now) =~= w);
    }
}

/// Pruning drops everything when every entry has aged out.
proof fn lemma_pruned_drops_all(w: Seq<u64>, now: u64)
    requires
        forall|i: int| 0 <= i < w.len() ==> #[trigger] w[i] + WINDOW_MS < now,
    ensures
        pruned(w, now) == Seq::<u64>::empty(),
    decreases w.len(),
{
    if w.len() > 0 {
        lemma_pruned_drops_all(w.drop_last(), now);
    }
}

/// Within one burst, the first [`MAX_BURST`] attempts only stack up in
/// the window: after `k <= MAX_BURST` attempts the window holds exactly
/// those attempts and no cooldown is set.
proof fn lemma_burst_prefix(times: Seq<u64>, k: int)
    requires
        time_ordered(times),
        times[0] + WINDOW_MS + COOLDOWN_MS <= u64::MAX,
        forall|i: int| 0 <= i < times.len() ==> #[trigger] times[i] <= times[0] + WINDOW_MS,
        0 <= k <= MAX_BURST + 1,
        k <= times.len(),
    ensures
        state_after(times, k).window == times.take(k),
        k <= MAX_BURST ==> state_after(times, k).cooldown_until is None,
        k == MAX_BURST + 1 ==> state_after(times, k).cooldown_until == Some(
            (times[MAX_BURST as int] + COOLDOWN_MS) as u64,
        ),
    decreases k,
{
    if k <= 0 {
        assert(state_after(times, k).window =~= times.take(k));
    } else {
        lemma_burst_prefix(times, k - 1);
        let s = state_after(times, k - 1);
        let now = times[k - 1];
        assert(!cooling(s, now));
        assert(forall|i: int|
            0 <= i < s.window.push(now).len() ==> #[trigger] s.window.push(now)[i] + WINDOW_MS
                >= now) by {
            assert(forall|i: int|
                0 <= i < times.take(k - 1).len() ==> #[trigger] times.take(k - 1)[i] == times[i]);
        }
        lemma_pruned_keeps_all(s.window.push(now), now);
        assert(window_after(s.window, now) =~= times.take(k));
    }
}

/// Once the cooldown of a burst is running, further attempts inside
/// the same span change nothing.
proof fn lemma_burst_frozen(times: Seq<u64>, k: int)
    requires
        time_ordered(times),
        times[0] + WINDOW_MS + COOLDOWN_MS <= u64::MAX,
        forall|i: int| 0 <= i < times.len() ==> #[trigger] times[i] <= times[0] + WINDOW_MS,
        MAX_BURST + 1 <= k <= times.len(),
        MAX_BURST < times.len(),
    ensures
        state_after(times, k) == state_after(times, MAX_BURST + 1 as int),
        k < times.len() ==> verdict_at(times, k) == (SendVerdict::CoolingDown {
            remaining_ms: (times[MAX_BURST as int] + COOLDOWN_MS - times[k]) as u64,
        }),
    decreases k,
{
    lemma_burst_prefix(times, MAX_BURST + 1 as int);
    if k == MAX_BURST + 1 {
    } else {
        lemma_burst_frozen(times, k - 1);
    }
    let s = state_after(times, k);
    if k < times.len() {
        let now = times[k];
        let cu = (times[MAX_BURST as int] + COOLDOWN_MS) as u64;
        assert(times[MAX_BURST as int] >= times[0]);
        assert(now <= times[0] + WINDOW_MS);
        assert(cooling(s, now));
    }
}

/// Burst law: starting fresh, for attempts at nondecreasing times that
/// all fall within one [`WINDOW_MS`] span, the first [`MAX_BURST`]
/// attempts are accepted, the next one is throttled and starts a
/// cooldown of [`COOLDOWN_MS`] from its own timestamp, and every later
/// attempt in the span is rejected by that cooldown without changing
/// the limiter at all.
pub proof fn law_burst(times: Seq<u64>, k: int)
    requires
        time_ordered(times),
        times[0] + WINDOW_MS + COOLDOWN_MS <= u64::MAX,
        forall|i: int| 0 <= i < times.len() ==> #[trigger] times[i] <= times[0] + WINDOW_MS,
        MAX_BURST < times.len(),
        0 <= k < times.len(),
    ensures
        k < MAX_BURST ==> verdict_at(times, k) == SendVerdict::Accepted,
        k == MAX_BURST ==> verdict_at(times, k) == SendVerdict::Throttled,
        k == MAX_BURST ==> state_after(times, k + 1).cooldown_until == Some(
            (times[k] + COOLDOWN_MS) as u64,
        ),
        k > MAX_BURST ==> verdict_at(times, k) is CoolingDown && state_after(times, k + 1)
            == state_after(times, k),
{
    if k <= MAX_BURST {
        lemma_burst_prefix(times, k);
        let s = state_after(times, k);
        let now = times[k];
        assert(!cooling(s, now));
        assert(forall|i: int|
            0 <= i < s.window.push(now).len() ==> #[trigger] s.window.push(now)[i] + WINDOW_MS
                >= now) by {
            assert(forall|i: int|
                0 <= i < times.take(k).len() ==> #[trigger] times.take(k)[i] == times[i]);
        }
        lemma_pruned_keeps_all(s.window.push(now), now);
        if k == MAX_BURST {
            lemma_burst_prefix(times, k + 1);
        }
    } else {
        lemma_burst_frozen(times, k);
        lemma_burst_frozen(times, k + 1);
    }
}

/// Cooldown law: while a cooldown runs, every attempt is rejected with
/// the remaining time and changes nothing; from the deadline on, an
/// attempt finds every window entry a full cooldown old, so it is
/// accepted and starts a fresh window holding only itself. The premise
/// on the window entries is exactly what a throttling step leaves
/// behind, since it sets the deadline [`COOLDOWN_MS`] past its own
/// timestamp and no recorded attempt is later than that.
pub proof fn law_cooldown(s: LimiterModel, cu: u64, now: u64)
    requires
        s.cooldown_until == Some(cu),
        forall|i: int| 0 <= i < s.window.len() ==> #[trigger] s.window[i] + COOLDOWN_MS <= cu,
    ensures
        now < cu ==> limiter_step(s, now) == (s, SendVerdict::CoolingDown {
            remaining_ms: (cu - now) as u64,
        }),
        now >= cu ==> limiter_step(s, now) == (LimiterModel {
            window: seq![now],
            cooldown_until: None,
        }, SendVerdict::Accepted),
{
    if now >= cu {
        assert(forall|i: int|
            0 <= i < s.window.len() ==> #[trigger] s.window[i] + WINDOW_MS < now);
        lemma_pruned_drops_all(s.window, now);
        assert(s.window.push(now).drop_last() =~= s.window);
        assert(window_after(s.window, now) =~= seq![now]);
    }
}

impl View for RateLimiter {
    type V = LimiterModel;

    closed spec fn view(&self) -> LimiterModel {
        LimiterModel { window: self.window@, cooldown_until: self.cooldown_until }
    }
}

impl RateLimiter {
    /// The limiter is well formed when its window is in time order.
    pub open spec fn wf(&self) -> bool {
        time_ordered(self@.window)
    }

    /// A fresh limiter: empty window, no cooldown.
    pub fn new() -> (r: Self)
        ensures
            r.wf(),
            r@.window == Seq::<u64>::empty(),
            r@.cooldown_until is None,
            all_at_most(r@.window, 0),
    {
        RateLimiter { window: Vec::new(), cooldown_until: None }
    }

    /// Record one send attempt made at `now` milliseconds and say what
    /// becomes of it. `now` must not precede any recorded attempt: the
    /// clock is monotonic.
    pub fn on_attempt(&mut self, now: u64) -> (r: SendVerdict)
        requires
            old(self).wf(),
            all_at_most(old(self)@.window, now),
            now + COOLDOWN_MS <= u64::MAX,
        ensures
            (final(self)@, r) == limiter_step(old(self)@, now),
            final(self).wf(),
            all_at_most(final(self)@.window, now),
    {
        if let Some(u) = self.cooldown_until {
            if now < u {
                return SendVerdict::CoolingDown { remaining_ms: u - now };
            }
            self.cooldown_until = None;
        }
        let ghost w0 = self.window@;
        let mut kept: Vec<u64> = Vec::new();
        let mut i: usize = 0;
        proof {
            assert(w0.take(0int) =~= Seq::<u64>::empty());
        }
        while i < self.window.len()
            invariant
                i <= self.window@.len(),
                self.window@ == w0,
                now + COOLDOWN_MS <= u64::MAX,
                time_ordered(w0),
                all_at_most(w0, now),
                kept@ == pruned(w0.take(i as int), now),
                time_ordered(kept@),
                all_at_most(kept@, now),
                forall|m: int|
                    0 <= m < kept@.len() ==> i > 0 && #[trigger] kept@[m] <= w0[i - 1],
            decreases self.window@.len() - i,
        {
            let t = self.window[i];
            proof {
                assert(w0.take(i + 1).drop_last() =~= w0.take(i as int));
                assert(w0.take(i + 1).last() == w0[i as int]);
            }
            if t + WINDOW_MS >= now {
                kept.push(t);
            }
            i = i + 1;
        }
        proof {
            assert(w0.take(w0.len() as int) =~= w0);
        }
        kept.push(now);
        proof {
            assert(w0.push(now).drop_last() =~= w0);
            assert(kept@ == window_after(w0, now));
        }
        self.window = kept;
        if self.window.len() > MAX_BURST {
            self.cooldown_until = Some(now + COOLDOWN_MS);
            SendVerdict::Throttled
        } else {
            SendVerdict::Accepted
        }
    }

    /// The recorded attempts, oldest first.
    pub fn window_times(&self) -> (r: &Vec<u64>)
        ensures
            r@ == self@.window,
    {
        &self.window
    }

    /// The cooldown deadline, if one is running.
    pub fn cooldown_deadline(&self) -> (r: Option<u64>)
        ensures
            r == self@.cooldown_until,
    {
        self.cooldown_until
    }
}

} // verus!
