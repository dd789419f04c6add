//! How often and how fast a failed run is tried again.

use vstd::prelude::*;

use crate::strmap::Duplicate;
use crate::timestamp::Timestamp;

verus! {

/// How long to wait before a retry.
#[derive(Debug, Clone, Copy, PartialEq, Eq, Structural)]
pub enum BackoffStrategy {
    /// Always wait the same number of seconds.
    Fixed { seconds: u64 },
    /// Wait `base * 2^(attempt-1)`, capped at `max_seconds`.
    Exponential { base_seconds: u64, max_seconds: u64 },
    /// Wait `base + step * (attempt-1)`, capped at `max_seconds`.
    Linear { base_seconds: u64, step_seconds: u64, max_seconds: u64 },
}

/// The smaller of two numbers.
pub open spec fn min(a: int, b: int) -> int {
    if a <= b {
        a
    } else {
        b
    }
}

impl BackoffStrategy {
    /// The delay before a retry. The first retry is attempt one; attempt zero waits like
    /// the first in an exponential backoff. A product or a sum beyond the range of 64
    /// bits counts as the largest number in it.
    pub open spec fn delay(self, attempt: int) -> int {
        match self {
            BackoffStrategy::Fixed { seconds } => seconds as int,
            BackoffStrategy::Exponential { base_seconds, max_seconds } => {
                let exponent: nat = if attempt > 0 {
                    (attempt - 1) as nat
                } else {
                    0
                };
                let factor = min(vstd::arithmetic::power::pow(2, exponent), u64::MAX as int);
                min(min(base_seconds * factor, u64::MAX as int), max_seconds as int)
            },
            BackoffStrategy::Linear { base_seconds, step_seconds, max_seconds } => {
                let step = min(step_seconds * (attempt - 1), u64::MAX as int);
                min(min(base_seconds + step, u64::MAX as int), max_seconds as int)
            },
        }
    }

    /// Whether a delay is defined for the attempt: a linear backoff counts from one.
    pub open spec fn admits(self, attempt: int) -> bool {
        self is Linear ==> attempt >= 1
    }

    /// The delay before the given attempt; attempt one is the first retry.
    pub fn delay_seconds(&self, attempt: u32) -> (r: u64)
        requires
            self.admits(attempt as int),
        ensures
            r == self.delay(attempt as int),
    {
        match self {
            BackoffStrategy::Fixed { seconds } => *seconds,
            BackoffStrategy::Exponential { base_seconds, max_seconds } => {
                let exponent: u32 = attempt.saturating_sub(1);
                let factor: u64 = saturating_pow2(exponent);
                let delay: u64 = saturating_product(*base_seconds, factor);
                if delay <= *max_seconds {
                    delay
                } else {
                    *max_seconds
                }
            },
            BackoffStrategy::Linear { base_seconds, step_seconds, max_seconds } => {
                let steps: u64 = (attempt - 1) as u64;
                let delay: u64 = base_seconds.saturating_add(
                    saturating_product(*step_seconds, steps),
                );
                if delay <= *max_seconds {
                    delay
                } else {
                    *max_seconds
                }
            },
        }
    }
}

/// The product of two numbers, or the largest number if it is beyond the range.
fn saturating_product(a: u64, b: u64) -> (r: u64)
    ensures
        r == min(a * b, u64::MAX as int),
{
    match a.checked_mul(b) {
        Some(p) => p,
        None => u64::MAX,
    }
}

/// The power of two, or the largest number if it is beyond the range.
fn saturating_pow2(exponent: u32) -> (r: u64)
    ensures
        r == min(vstd::arithmetic::power::pow(2, exponent as nat), u64::MAX as int),
{
    proof {
        vstd::arithmetic::power::lemma_pow0(2);
    }
    let mut r: u64 = 1;
    let mut i: u32 = 0;
    while i < exponent
        invariant
            i <= exponent,
            r == vstd::arithmetic::power::pow(2, i as nat),
        decreases exponent - i,
    {
        proof {
            reveal(vstd::arithmetic::power::pow);
        }
        match r.checked_mul(2) {
            Some(p) => {
                r = p;
            },
            None => {
                proof {
                    pow2_grows((i + 1) as nat, exponent as nat);
                }
                return u64::MAX;
            },
        }
        i = i + 1;
    }
    r
}

proof fn pow2_grows(i: nat, j: nat)
    requires
        i <= j,
    ensures
        vstd::arithmetic::power::pow(2, i) <= vstd::arithmetic::power::pow(2, j),
    decreases j - i,
{
    reveal(vstd::arithmetic::power::pow);
    if i < j {
        pow2_grows(i, (j - 1) as nat);
        vstd::arithmetic::power::lemma_pow_positive(2, (j - 1) as nat);
    }
}

/// How often a run is attempted, and how long to wait in between.
#[derive(Debug, Clone, Copy, PartialEq, Eq, Structural)]
pub struct RetryPolicy {
    /// The number of attempts; one means no retry.
    pub max_attempts: u32,
    pub backoff: BackoffStrategy,
}

impl View for RetryPolicy {
    type V = RetryPolicy;

    open spec fn view(&self) -> RetryPolicy {
        *self
    }
}

impl Duplicate for RetryPolicy {
    fn duplicate(&self) -> (r: Self) {
        *self
    }
}

impl Default for RetryPolicy {
    fn default() -> (r: Self)
        ensures
            r == (RetryPolicy {
                max_attempts: 3,
                backoff: BackoffStrategy::Exponential { base_seconds: 30, max_seconds: 3600 },
            }),
    {
        RetryPolicy {
            max_attempts: 3,
            backoff: BackoffStrategy::Exponential { base_seconds: 30, max_seconds: 3600 },
        }
    }
}

impl RetryPolicy {
    /// A policy of a single attempt.
    pub fn no_retry() -> (r: Self)
        ensures
            r == (RetryPolicy { max_attempts: 1, backoff: BackoffStrategy::Fixed { seconds: 0 } }),
    {
        RetryPolicy { max_attempts: 1, backoff: BackoffStrategy::Fixed { seconds: 0 } }
    }

    /// When the next attempt is due after attempt number `attempt` failed; nothing when
    /// the attempts are used up.
    pub open spec fn retry_at(
        self,
        from: crate::timestamp::TimeView,
        attempt: int,
    ) -> Option<crate::timestamp::TimeView> {
        if attempt >= self.max_attempts {
            None
        } else {
            Some(from.plus(self.backoff.delay(attempt) as int))
        }
    }

    /// Whether the time of the next attempt can be represented, if there is one.
    pub open spec fn can_retry(self, from: crate::timestamp::TimeView, attempt: int) -> bool {
        attempt < self.max_attempts ==> {
            &&& self.backoff.admits(attempt)
            &&& from.can_add(self.backoff.delay(attempt) as int)
        }
    }

    /// Whether the time of the next attempt can be represented, if there is one.
    pub fn retry_fits(&self, from: Timestamp, attempt: u32) -> (r: bool)
        ensures
            r == self.can_retry(from@, attempt as int),
    {
        if attempt >= self.max_attempts {
            return true;
        }
        if matches!(self.backoff, BackoffStrategy::Linear { .. }) && attempt == 0 {
            return false;
        }
        from.plus_seconds(self.backoff.delay_seconds(attempt)).is_some()
    }

    /// The time of the next attempt after attempt number `attempt` failed at `from`.
    /// `None` if `attempt >= max_attempts`: the run is dead.
    pub fn next_retry_at(&self, from: Timestamp, attempt: u32) -> (r: Option<Timestamp>)
        requires
            self.can_retry(from@, attempt as int),
        ensures
            r.deep_view() == self.retry_at(from@, attempt as int),
    {
        if attempt >= self.max_attempts {
            return None;
        }
        let delay: u64 = self.backoff.delay_seconds(attempt);
        from.plus_seconds(delay)
    }
}

/// A delay never exceeds the cap of its strategy.
pub proof fn delay_is_capped(strategy: BackoffStrategy, attempt: int)
    ensures
        match strategy {
            BackoffStrategy::Fixed { seconds } => strategy.delay(attempt) == seconds,
            BackoffStrategy::Exponential { max_seconds, .. } => strategy.delay(attempt)
                <= max_seconds,
            BackoffStrategy::Linear { max_seconds, .. } => strategy.delay(attempt) <= max_seconds,
        },
{
}

/// A later attempt never waits less than an earlier one.
pub proof fn delay_is_monotone(strategy: BackoffStrategy, earlier: int, later: int)
    requires
        1 <= earlier <= later,
    ensures
        strategy.delay(earlier) <= strategy.delay(later),
{
    match strategy {
        BackoffStrategy::Fixed { .. } => {},
        BackoffStrategy::Exponential { base_seconds, .. } => {
            pow2_grows((earlier - 1) as nat, (later - 1) as nat);
            let a = min(vstd::arithmetic::power::pow(2, (earlier - 1) as nat), u64::MAX as int);
            let b = min(vstd::arithmetic::power::pow(2, (later - 1) as nat), u64::MAX as int);
            assert(base_seconds * a <= base_seconds * b) by (nonlinear_arith)
                requires
                    a <= b,
                    base_seconds >= 0,
            ;
        },
        BackoffStrategy::Linear { step_seconds, .. } => {
            assert(step_seconds * (earlier - 1) <= step_seconds * (later - 1)) by (nonlinear_arith)
                requires
                    earlier <= later,
                    step_seconds >= 0,
            ;
        },
    }
}

} // verus!
