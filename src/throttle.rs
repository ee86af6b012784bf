//! A time gate that limits how often progress updates propagate.
use vstd::prelude::*;
use crate::clock::now_millis;
use crate::progress::{DownloadProgress, is_complete};

verus! {

/// The default minimum interval between accepted updates, in milliseconds.
pub const DEFAULT_INTERVAL_MS: u64 = 500;

/// Accepts an update when at least `min_interval_ms` have passed since the
/// last accepted one; the first update is always accepted.
#[derive(Clone, Copy, Debug)]
pub struct ProgressThrottler {
    last_update: Option<u64>,
    min_interval_ms: u64,
}

/// The mathematical state of a throttler.
pub struct ThrottleView {
    pub last_update: Option<u64>,
    pub min_interval_ms: u64,
}

impl View for ProgressThrottler {
    type V = ThrottleView;

    closed spec fn view(&self) -> ThrottleView {
        ThrottleView { last_update: self.last_update, min_interval_ms: self.min_interval_ms }
    }
}

/// Milliseconds from `last` to `now`; zero when the clock went back.
pub open spec fn elapsed(last: u64, now: u64) -> nat {
    if now >= last {
        (now - last) as nat
    } else {
        0
    }
}

/// Whether an update passes at `now`.
pub open spec fn gate_open(v: ThrottleView, now: u64) -> bool {
    match v.last_update {
        None => true,
        Some(last) => elapsed(last, now) >= v.min_interval_ms,
    }
}

impl ProgressThrottler {
    /// A throttler with the given minimum interval that accepts its first update.
    pub fn new(min_interval_ms: u64) -> (r: ProgressThrottler)
        ensures
            r@.last_update is None,
            r@.min_interval_ms == min_interval_ms,
    {
        ProgressThrottler { last_update: None, min_interval_ms }
    }

    /// A throttler with the default interval of 500 ms.
    pub fn with_default_interval() -> (r: ProgressThrottler)
        ensures
            r@.last_update is None,
            r@.min_interval_ms == DEFAULT_INTERVAL_MS,
    {
        Self::new(DEFAULT_INTERVAL_MS)
    }

    /// The interval check at time `now`: true, and the timer reset to `now`, iff at least
    /// the interval has passed since the last accepted update; otherwise
    /// false and nothing changes.
    pub fn should_update_at(&mut self, now: u64) -> (r: bool)
        ensures
            r == gate_open(old(self)@, now),
            r ==> final(self)@.last_update == Some(now),
            !r ==> final(self)@.last_update == old(self)@.last_update,
            final(self)@.min_interval_ms == old(self)@.min_interval_ms,
    {
        let open = match self.last_update {
            None => true,
            Some(last) => {
                let passed = if now >= last {
                    now - last
                } else {
                    0
                };
                passed >= self.min_interval_ms
            },
        };
        if open {
            self.last_update = Some(now);
        }
        open
    }

    /// Resets the timer to `now` without declaring an update.
    pub fn force_update_at(&mut self, now: u64)
        ensures
            final(self)@.last_update == Some(now),
            final(self)@.min_interval_ms == old(self)@.min_interval_ms,
    {
        self.last_update = Some(now);
    }

    /// Whether `progress` is to be emitted at `now`: the interval is consulted
    /// (and the timer reset when it passes), and a record at 100% or more always passes.
    pub fn throttled_call_at(&mut self, progress: &DownloadProgress, now: u64) -> (r: bool)
        ensures
            r == (gate_open(old(self)@, now) || is_complete(*progress)),
            gate_open(old(self)@, now) ==> final(self)@.last_update == Some(now),
            !gate_open(old(self)@, now) ==> final(self)@.last_update == old(self)@.last_update,
            final(self)@.min_interval_ms == old(self)@.min_interval_ms,
    {
        let open = self.should_update_at(now);
        open || progress.is_complete()
    }

    /// The interval check at the current time of the wall clock. Whatever the clock
    /// says, a false answer changes nothing and a true one resets the timer.
    pub fn should_update(&mut self) -> (r: bool)
        ensures
            (forall|t: u64| gate_open(old(self)@, t)) ==> r,
            r ==> (final(self)@.last_update matches Some(now) && gate_open(old(self)@, now)),
            !r ==> final(self)@.last_update == old(self)@.last_update,
            final(self)@.min_interval_ms == old(self)@.min_interval_ms,
    {
        let now = now_millis();
        self.should_update_at(now)
    }

    /// Resets the timer to the current time of the wall clock.
    pub fn force_update(&mut self)
        ensures
            final(self)@.last_update is Some,
            final(self)@.min_interval_ms == old(self)@.min_interval_ms,
    {
        let now = now_millis();
        self.force_update_at(now)
    }
}

/// An accepted call at `t1`, then a call closer than the interval (or one
/// whose clock reads earlier than `t1`): refused;
/// refusal changes nothing, so a call once the interval has passed since
/// `t1` is accepted.
pub proof fn lemma_throttle_gate(v: ThrottleView, t1: u64, t2: u64, t3: u64)
    requires
        v.min_interval_ms > 0,
        t2 < t1 + v.min_interval_ms,
        t3 >= t1 + v.min_interval_ms,
    ensures
        !gate_open(ThrottleView { last_update: Some(t1), ..v }, t2),
        gate_open(ThrottleView { last_update: Some(t1), ..v }, t3),
{
}

} // verus!
