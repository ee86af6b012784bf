//! Retry with exponential backoff for idempotent read-only lookups, as a
//! decision procedure: the caller runs the operation and sleeps.
use vstd::prelude::*;
use crate::bignum::{from_u64, limbs_ok, limbs_value, min_capped, mul_small, div_small};

verus! {

/// Delays are in milliseconds; the multiplier is in thousandths (2000 is ×2).
#[derive(Clone, Copy, Debug)]
pub struct RetryConfig {
    pub max_attempts: u32,
    pub initial_delay_ms: u64,
    pub max_delay_ms: u64,
    pub backoff_multiplier_milli: u64,
}

impl RetryConfig {
    /// 3 attempts, 1 s initial delay, 30 s cap, multiplier 2.
    pub fn default_policy() -> (r: RetryConfig)
        ensures
            r.max_attempts == 3,
            r.initial_delay_ms == 1000,
            r.max_delay_ms == 30_000,
            r.backoff_multiplier_milli == 2000,
    {
        RetryConfig {
            max_attempts: 3,
            initial_delay_ms: 1000,
            max_delay_ms: 30_000,
            backoff_multiplier_milli: 2000,
        }
    }
}

impl Default for RetryConfig {
    fn default() -> (r: RetryConfig)
        ensures
            r.max_attempts == 3,
            r.initial_delay_ms == 1000,
            r.max_delay_ms == 30_000,
            r.backoff_multiplier_milli == 2000,
    {
        Self::default_policy()
    }
}

/// `b^e`.
pub open spec fn power(b: nat, e: nat) -> nat
    decreases e,
{
    if e == 0 {
        1
    } else {
        b * power(b, (e - 1) as nat)
    }
}

/// The sleep after failed attempt `n` (from 1): `min(initial × m^(n−1),
/// cap)` with the multiplier `m` in thousandths, rounded down once.
pub open spec fn delay_after(c: RetryConfig, n: nat) -> nat {
    let k = if n >= 1 {
        (n - 1) as nat
    } else {
        0
    };
    let exact = (c.initial_delay_ms as nat * power(c.backoff_multiplier_milli as nat, k)) / power(
        1000,
        k,
    );
    if exact > c.max_delay_ms {
        c.max_delay_ms as nat
    } else {
        exact
    }
}

proof fn lemma_power_positive(b: nat, e: nat)
    requires
        b >= 1,
    ensures
        power(b, e) >= 1,
    decreases e,
{
    if e > 0 {
        lemma_power_positive(b, (e - 1) as nat);
        assert(b * power(b, (e - 1) as nat) >= 1) by (nonlinear_arith)
            requires
                b >= 1,
                power(b, (e - 1) as nat) >= 1,
        ;
    }
}

/// The sleep after failed attempt `n`, computed exactly.
pub fn backoff_delay(config: &RetryConfig, n: u32) -> (r: u64)
    requires
        n >= 1,
    ensures
        r == delay_after(*config, n as nat),
{
    let k = n - 1;
    let mut big = from_u64(config.initial_delay_ms);
    let mut j: u32 = 0;
    proof {
        assert(power(config.backoff_multiplier_milli as nat, 0) == 1);
    }
    while j < k
        invariant
            j <= k,
            limbs_ok(big@),
            big@.len() >= 2,
            limbs_value(big@) == config.initial_delay_ms as nat * power(
                config.backoff_multiplier_milli as nat,
                j as nat,
            ),
        decreases k - j,
    {
        big = mul_small(&big, config.backoff_multiplier_milli);
        proof {
            let m = config.backoff_multiplier_milli as nat;
            assert(power(m, (j + 1) as nat) == m * power(m, j as nat));
            assert(config.initial_delay_ms as nat * power(m, j as nat) * m == config.initial_delay_ms as nat
                * (m * power(m, j as nat))) by (nonlinear_arith);
        }
        j = j + 1;
    }
    let ghost numerator = limbs_value(big@);
    let mut j: u32 = 0;
    proof {
        assert(power(1000, 0) == 1);
    }
    while j < k
        invariant
            j <= k,
            limbs_ok(big@),
            big@.len() >= 2,
            limbs_value(big@) == numerator / power(1000, j as nat),
        decreases k - j,
    {
        big = div_small(&big, 1000);
        proof {
            lemma_power_positive(1000, j as nat);
            vstd::arithmetic::div_mod::lemma_div_denominator(
                numerator as int,
                power(1000, j as nat) as int,
                1000,
            );
            assert(power(1000, (j + 1) as nat) == 1000 * power(1000, j as nat));
            assert(power(1000, j as nat) * 1000 == 1000 * power(1000, j as nat));
        }
        j = j + 1;
    }
    min_capped(&big, config.max_delay_ms)
}

/// What to do after a failed attempt.
#[derive(Clone, Copy, Debug, PartialEq, Eq, Structural)]
pub enum RetryDecision {
    /// Sleep this many milliseconds, then try again.
    Retry { delay_ms: u64 },
    /// Return the error.
    GiveUp,
}

/// Attempts started so far, and the sleep owed after the current one fails.
#[derive(Clone, Copy, Debug)]
pub struct RetryState {
    pub attempt: u32,
    pub delay_ms: u64,
}

impl RetryState {
    /// The state as the first attempt starts.
    pub fn start(config: &RetryConfig) -> (r: RetryState)
        ensures
            r.attempt == 1,
            r.delay_ms == delay_after(*config, 1),
    {
        RetryState { attempt: 1, delay_ms: backoff_delay(config, 1) }
    }

    /// After attempt `attempt` failed: give up when the budget is spent or
    /// the error is not retryable; else sleep `delay_after(attempt)` and
    /// start the next attempt.
    pub fn after_failure(&mut self, config: &RetryConfig, retryable: bool) -> (r: RetryDecision)
        requires
            old(self).attempt >= 1,
            old(self).delay_ms == delay_after(*config, old(self).attempt as nat),
        ensures
            (r == RetryDecision::GiveUp) == (old(self).attempt >= config.max_attempts || !retryable),
            r == RetryDecision::GiveUp ==> *final(self) == *old(self),
            r != RetryDecision::GiveUp ==> r == (RetryDecision::Retry {
                delay_ms: old(self).delay_ms,
            }) && final(self).attempt == old(self).attempt + 1 && final(self).delay_ms
                == delay_after(*config, final(self).attempt as nat),
    {
        if self.attempt >= config.max_attempts || !retryable {
            return RetryDecision::GiveUp;
        }
        let delay = self.delay_ms;
        let next = backoff_delay(config, self.attempt + 1);
        self.attempt = self.attempt + 1;
        self.delay_ms = next;
        RetryDecision::Retry { delay_ms: delay }
    }
}

} // verus!
