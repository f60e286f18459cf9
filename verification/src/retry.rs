//! Bounded/unbounded retry-with-backoff around a fallible operation.
//!
//! A [`RetryPolicy`] fixes the delay schedule (exponential doubling from a
//! base, saturating at [`MAX_DELAY_MS`]) and an optional cap on the number of
//! attempts. [`execute`] drives any operation under such a policy.

use vstd::prelude::*;

use crate::sys;

verus! {

/// Largest single delay the executor ever sleeps, in milliseconds.
pub const MAX_DELAY_MS: u64 = 60_000;

/// A retry schedule: delays double from `base_ms` on each failed attempt,
/// saturating at `MAX_DELAY_MS`. `max_attempts` of `None` retries until the
/// attempt counter would overflow, which at these delays outlives any host.
pub struct RetryPolicy {
    pub base_ms: u64,
    pub max_attempts: Option<u64>,
}

/// `d` clipped to the largest delay the executor sleeps.
pub open spec fn clamp_delay(d: u64) -> u64 {
    if d > MAX_DELAY_MS {
        MAX_DELAY_MS
    } else {
        d
    }
}

/// The delay slept after failed attempt number `attempt` (counted from 0):
/// `base` doubled `attempt` times, saturating at `MAX_DELAY_MS`.
pub open spec fn spec_delay(base: u64, attempt: nat) -> u64
    decreases attempt,
{
    if attempt == 0 {
        clamp_delay(base)
    } else {
        let prev = spec_delay(base, (attempt - 1) as nat);
        if prev > MAX_DELAY_MS / 2 {
            MAX_DELAY_MS
        } else {
            (2 * prev) as u64
        }
    }
}

impl RetryPolicy {
    /// A policy is meaningful when a cap, if any, allows at least one attempt.
    pub open spec fn wf(&self) -> bool {
        self.max_attempts != Some(0u64)
    }

    /// The cap as a number: an absent cap counts as the largest `u64`.
    pub open spec fn cap(&self) -> u64 {
        match self.max_attempts {
            None => u64::MAX,
            Some(m) => m,
        }
    }

    /// Whether a further attempt is allowed once `n` attempts have failed.
    pub open spec fn allows_retry(&self, n: u64) -> bool {
        n < self.cap()
    }

    /// The default schedule for network queries: first delay 200ms,
    /// exponential growth, unbounded attempts.
    pub fn network() -> (r: RetryPolicy)
        ensures
            r.base_ms == 200,
            r.max_attempts is None,
            r.wf(),
    {
        RetryPolicy { base_ms: 200, max_attempts: None }
    }

    /// The capped schedule for mount-readiness polling: 10 attempts,
    /// 500ms initial delay, so worst-case startup latency is bounded.
    pub fn mount_poll() -> (r: RetryPolicy)
        ensures
            r.base_ms == 500,
            r.max_attempts == Some(10u64),
            r.wf(),
    {
        RetryPolicy { base_ms: 500, max_attempts: Some(10) }
    }

    /// The schedule for fetching the mirror discovery manifest: a few
    /// attempts only, since failure falls back to the default mirror.
    pub fn discovery() -> (r: RetryPolicy)
        ensures
            r.base_ms == 1000,
            r.max_attempts == Some(5u64),
            r.wf(),
    {
        RetryPolicy { base_ms: 1000, max_attempts: Some(5) }
    }
}

/// Progress of one retried operation: how many attempts have failed and the
/// delay the next failure will cost.
pub struct RetryState {
    pub attempts: u64,
    pub next_delay_ms: u64,
}

impl RetryState {
    /// The delay mirrors the schedule at the current attempt count.
    pub open spec fn wf(&self, policy: &RetryPolicy) -> bool {
        self.next_delay_ms == spec_delay(policy.base_ms, self.attempts as nat)
    }

    pub fn new(policy: &RetryPolicy) -> (r: RetryState)
        ensures
            r.attempts == 0,
            r.wf(policy),
    {
        let first = if policy.base_ms > MAX_DELAY_MS {
            MAX_DELAY_MS
        } else {
            policy.base_ms
        };
        RetryState { attempts: 0, next_delay_ms: first }
    }

    /// Accounts for one failed attempt. Returns the delay to sleep before
    /// the next attempt, or `None` when the policy's cap is exhausted.
    pub fn record_failure(&mut self, policy: &RetryPolicy) -> (r: Option<u64>)
        requires
            old(self).wf(policy),
            old(self).attempts < u64::MAX,
        ensures
            final(self).wf(policy),
            final(self).attempts == old(self).attempts + 1,
            r is Some <==> policy.allows_retry(final(self).attempts),
            r matches Some(d) ==> d == spec_delay(policy.base_ms, old(self).attempts as nat),
    {
        let slept = self.next_delay_ms;
        self.attempts = self.attempts + 1;
        self.next_delay_ms = if self.next_delay_ms > MAX_DELAY_MS / 2 {
            MAX_DELAY_MS
        } else {
            2 * self.next_delay_ms
        };
        let cap = match policy.max_attempts {
            None => u64::MAX,
            Some(m) => m,
        };
        if self.attempts < cap {
            Some(slept)
        } else {
            None
        }
    }
}

/// What one attempt of a retried operation reports.
#[derive(Debug)]
pub enum OpOutcome<T> {
    /// The attempt succeeded with this value.
    Done(T),
    /// The attempt failed but may be retried.
    Retryable(String),
    /// The attempt failed for good; no further attempt may be made.
    Fatal(String),
}

/// Why a retried operation gave up.
#[derive(Debug)]
pub enum RetryError {
    /// The attempt cap was reached; carries the attempt count and the last
    /// underlying failure.
    Exhausted { attempts: u64, last: String },
    /// The operation reported a fatal failure.
    Aborted(String),
}

/// Runs `op` under `policy`: returns the first success at once, sleeps and
/// retries on a retryable failure until the cap is exhausted, and aborts at
/// once on a fatal failure.
///
/// The last two ensures clauses state the bounded-exhaustion law: exhaustion
/// is reported only at exactly the policy's cap, and a policy capped at `n`
/// attempts, given an operation that only ever fails retryably, performs
/// exactly `n` attempts and then reports exhaustion.
pub fn execute<T, F: Fn() -> OpOutcome<T>>(policy: &RetryPolicy, op: F) -> (r: Result<
    T,
    RetryError,
>)
    requires
        policy.wf(),
        call_requires(op, ()),
    ensures
        r matches Ok(t) ==> call_ensures(op, (), OpOutcome::Done(t)),
        r matches Err(RetryError::Aborted(m)) ==> call_ensures(op, (), OpOutcome::Fatal(m)),
        r matches Err(RetryError::Exhausted { attempts, last }) ==> attempts == policy.cap()
            && call_ensures(op, (), OpOutcome::Retryable(last)),
        (policy.max_attempts is Some && (forall|out: OpOutcome<T>|
            #[trigger] call_ensures(op, (), out) ==> out is Retryable)) ==> (r matches Err(
            RetryError::Exhausted { attempts, .. },
        ) && attempts == policy.max_attempts->0),
{
    let mut state = RetryState::new(policy);
    loop
        invariant
            policy.wf(),
            call_requires(op, ()),
            state.wf(policy),
            state.attempts < policy.cap() || state.attempts == 0,
        decreases policy.cap() - state.attempts,
    {
        match op() {
            OpOutcome::Done(t) => {
                return Ok(t);
            },
            OpOutcome::Fatal(m) => {
                return Err(RetryError::Aborted(m));
            },
            OpOutcome::Retryable(m) => {
                match state.record_failure(policy) {
                    Some(d) => {
                        let ms: u32 = if d > MAX_DELAY_MS {
                            MAX_DELAY_MS as u32
                        } else {
                            d as u32
                        };
                        sys::sleep_ms(ms);
                    },
                    None => {
                        return Err(RetryError::Exhausted { attempts: state.attempts, last: m });
                    },
                }
            },
        }
    }
}

} // verus!
