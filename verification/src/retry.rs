//! Bounded retry strategy with exponential backoff for transient failures of
//! idempotent simulation calls (rate limits, timeouts, server-side 5xx).
//!
//! This module holds the decisions: which errors are retried, when to stop,
//! and how long the capped backoff before the next attempt is. Sleeping, the
//! random jitter applied to the backoff, and the call loop itself live in the
//! application layer. Durations are whole nanoseconds.
use vstd::prelude::*;
use vstd::string::StringExecFns;

verus! {

/// Classification of errors encountered during simulation or RPC calls.
#[derive(Debug, PartialEq, Eq)]
pub enum SimulationError {
    /// A transient failure that is typically safe to retry (HTTP 429 or 503,
    /// transport timeouts, connection resets).
    Transient(String),
    /// A failure that should not be retried (HTTP 400 or 401, contract trap,
    /// logical invariant violation).
    NonTransient(String),
}

impl Clone for SimulationError {
    fn clone(&self) -> (r: Self)
        ensures
            r == *self,
    {
        match self {
            SimulationError::Transient(m) => SimulationError::Transient(m.clone()),
            SimulationError::NonTransient(m) => SimulationError::NonTransient(m.clone()),
        }
    }
}

impl SimulationError {
    /// Whether the error is classified as transient.
    pub fn is_transient(&self) -> (r: bool)
        ensures
            r == (*self is Transient),
    {
        match self {
            SimulationError::Transient(_) => true,
            SimulationError::NonTransient(_) => false,
        }
    }

    /// The error message.
    pub open spec fn spec_message(self) -> Seq<char> {
        match self {
            SimulationError::Transient(m) => "transient error: "@ + m@,
            SimulationError::NonTransient(m) => "non-transient error: "@ + m@,
        }
    }

    /// Human-readable description: the kind of error, then its message.
    pub fn message(&self) -> (r: String)
        ensures
            r@ == self.spec_message(),
    {
        match self {
            SimulationError::Transient(m) => {
                let mut s = String::from_str("transient error: ");
                s.append(m.as_str());
                s
            },
            SimulationError::NonTransient(m) => {
                let mut s = String::from_str("non-transient error: ");
                s.append(m.as_str());
                s
            },
        }
    }
}

/// Nanoseconds in a millisecond.
pub const NANOS_PER_MILLI: u128 = 1_000_000;

/// Nanoseconds in a second.
pub const NANOS_PER_SEC: u128 = 1_000_000_000;

/// The longest span a `std::time::Duration` holds, in nanoseconds:
/// `u64::MAX` seconds and 999 999 999 nanoseconds.
pub const MAX_SPAN_NANOS: u128 = 18_446_744_073_709_551_615_999_999_999;

/// Configuration for the retry strategy.
#[derive(Debug, Clone, Copy, PartialEq, Eq, Structural)]
pub struct RetryConfig {
    /// Maximum number of attempts allowed (including the initial call).
    pub max_attempts: u32,
    /// Backoff after the first failure, in nanoseconds.
    pub initial_backoff_nanos: u128,
    /// Maximum backoff for any single retry, in nanoseconds.
    pub max_backoff_nanos: u128,
}

impl Default for RetryConfig {
    /// Five attempts, 100 ms initial backoff, 10 s cap.
    fn default() -> (r: Self)
        ensures
            r.max_attempts == 5,
            r.initial_backoff_nanos == 100 * NANOS_PER_MILLI,
            r.max_backoff_nanos == 10 * NANOS_PER_SEC,
    {
        RetryConfig {
            max_attempts: 5,
            initial_backoff_nanos: 100 * NANOS_PER_MILLI,
            max_backoff_nanos: 10 * NANOS_PER_SEC,
        }
    }
}

/// `2^e`.
pub open spec fn spec_pow2(e: nat) -> nat
    decreases e,
{
    if e == 0 {
        1
    } else {
        2 * spec_pow2((e - 1) as nat)
    }
}

/// `2^e` saturated at `u32::MAX`, as `2u32.saturating_pow(e)` computes it.
pub open spec fn spec_saturating_pow2(e: nat) -> nat {
    if spec_pow2(e) > u32::MAX {
        u32::MAX as nat
    } else {
        spec_pow2(e)
    }
}

/// The backoff before the attempt after `attempt` failed ones, before jitter:
/// the initial backoff doubled for every failure after the first (the factor
/// saturating at `u32::MAX`, the product at the longest `Duration`), capped at
/// the maximum backoff; zero for attempt zero.
pub open spec fn spec_capped_backoff(config: RetryConfig, attempt: u32) -> nat {
    if attempt == 0 {
        0
    } else {
        let base = config.initial_backoff_nanos * spec_saturating_pow2((attempt - 1) as nat);
        let base = if base > MAX_SPAN_NANOS {
            MAX_SPAN_NANOS as nat
        } else {
            base as nat
        };
        if base < config.max_backoff_nanos {
            base
        } else {
            config.max_backoff_nanos as nat
        }
    }
}

/// `2^e` saturated at `u32::MAX`.
fn saturating_pow2(e: u32) -> (r: u32)
    ensures
        r == spec_saturating_pow2(e as nat),
{
    let mut r: u32 = 1;
    let mut i: u32 = 0;
    let mut saturated = false;
    while i < e
        invariant
            i <= e,
            saturated ==> r == u32::MAX && spec_pow2(i as nat) > u32::MAX,
            !saturated ==> r == spec_pow2(i as nat),
        decreases e - i,
    {
        proof {
            assert(spec_pow2((i + 1) as nat) == 2 * spec_pow2(i as nat));
        }
        if !saturated {
            if r > u32::MAX / 2 {
                r = u32::MAX;
                saturated = true;
            } else {
                r = 2 * r;
            }
        }
        i = i + 1;
    }
    r
}

/// The capped backoff before the next attempt, in nanoseconds, before jitter:
/// `min(max_backoff, initial_backoff * 2^(attempt - 1))`, zero for attempt zero.
pub fn capped_backoff_nanos(config: &RetryConfig, attempt: u32) -> (r: u128)
    requires
        config.initial_backoff_nanos <= MAX_SPAN_NANOS,
        config.max_backoff_nanos <= MAX_SPAN_NANOS,
    ensures
        r == spec_capped_backoff(*config, attempt),
{
    if attempt == 0 {
        return 0;
    }
    let multiplier = saturating_pow2(attempt - 1) as u128;
    let base = if multiplier > 0 && config.initial_backoff_nanos > MAX_SPAN_NANOS / multiplier {
        proof {
            assert(config.initial_backoff_nanos * multiplier > MAX_SPAN_NANOS) by (nonlinear_arith)
                requires
                    multiplier > 0,
                    config.initial_backoff_nanos > MAX_SPAN_NANOS / multiplier,
            ;
        }
        MAX_SPAN_NANOS
    } else {
        proof {
            if multiplier > 0 {
                assert(config.initial_backoff_nanos * multiplier <= MAX_SPAN_NANOS) by (nonlinear_arith)
                    requires
                        multiplier > 0,
                        config.initial_backoff_nanos <= MAX_SPAN_NANOS / multiplier,
                ;
            }
        }
        config.initial_backoff_nanos * multiplier
    };
    if base < config.max_backoff_nanos {
        base
    } else {
        config.max_backoff_nanos
    }
}

/// What to do after an attempt failed.
#[derive(Debug, Clone, Copy, PartialEq, Eq, Structural)]
pub enum RetryStep {
    /// Wait for the backoff of `failed_attempt`, then make attempt `next_attempt`.
    Retry { failed_attempt: u32, next_attempt: u32 },
    /// Stop and return the error.
    Stop,
}

/// The decision after attempt `attempt` failed, transiently or not.
pub open spec fn spec_next_retry_step(config: RetryConfig, attempt: u32, transient: bool) -> RetryStep {
    if transient && attempt < config.max_attempts {
        RetryStep::Retry { failed_attempt: attempt, next_attempt: (attempt + 1) as u32 }
    } else {
        RetryStep::Stop
    }
}

/// The decision after attempt `attempt` (counted from 1) failed with `error`:
/// a transient error is retried while fewer than `max_attempts` attempts were
/// made; any other failure stops.
pub fn next_retry_step(config: &RetryConfig, attempt: u32, error: &SimulationError) -> (r: RetryStep)
    ensures
        r == spec_next_retry_step(*config, attempt, *error is Transient),
{
    if error.is_transient() && attempt < config.max_attempts {
        RetryStep::Retry { failed_attempt: attempt, next_attempt: attempt + 1 }
    } else {
        RetryStep::Stop
    }
}

/// The backoff grows with each failure until it reaches the cap, and never
/// exceeds the cap.
pub proof fn law_backoff_monotone_and_capped(config: RetryConfig, a: u32, b: u32)
    requires
        1 <= a <= b,
    ensures
        spec_capped_backoff(config, a) <= spec_capped_backoff(config, b),
        spec_capped_backoff(config, b) <= config.max_backoff_nanos,
{
    lemma_pow2_monotone((a - 1) as nat, (b - 1) as nat);
    let pa = spec_saturating_pow2((a - 1) as nat);
    let pb = spec_saturating_pow2((b - 1) as nat);
    assert(pa <= pb);
    assert(config.initial_backoff_nanos * pa <= config.initial_backoff_nanos * pb) by (nonlinear_arith)
        requires
            pa <= pb,
    ;
}

proof fn lemma_pow2_monotone(a: nat, b: nat)
    requires
        a <= b,
    ensures
        spec_pow2(a) <= spec_pow2(b),
        spec_pow2(a) >= 1,
    decreases b,
{
    if b > a {
        lemma_pow2_monotone(a, (b - 1) as nat);
    } else if a > 0 {
        lemma_pow2_monotone((a - 1) as nat, (a - 1) as nat);
    }
}

/// Retries are bounded: a retry moves to the next attempt and never past
/// `max_attempts`, and a non-transient error is never retried.
pub proof fn law_retries_are_bounded(config: RetryConfig, attempt: u32, transient: bool)
    ensures
        spec_next_retry_step(config, attempt, transient) matches RetryStep::Retry {
            failed_attempt,
            next_attempt,
        } ==> failed_attempt == attempt && next_attempt == attempt + 1 && next_attempt
            <= config.max_attempts,
        !transient ==> spec_next_retry_step(config, attempt, transient) == RetryStep::Stop,
{
}

} // verus!
