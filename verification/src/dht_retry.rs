//! Retrying DHT operations that fail with the transient "try again" error.
//!
//! The caller performs each attempt and the sleeps; `RetryState::decide` says,
//! after each attempt, whether to return, to sleep and try again, or to give
//! up. Backoff starts at 2 seconds and doubles; at most 5 attempts are made.
use vstd::prelude::*;

verus! {

/// Maximum number of attempts before giving up.
pub const MAX_RETRIES: u32 = 5;

/// Seconds to wait after the first failed attempt; each later wait doubles.
pub const INITIAL_BACKOFF_SECS: u64 = 2;

/// Seconds to wait after failed attempt number `attempt` (1-based): `2^attempt`.
pub open spec fn backoff_after(attempt: nat) -> nat
    decreases attempt,
{
    if attempt <= 1 {
        INITIAL_BACKOFF_SECS as nat
    } else {
        2 * backoff_after((attempt - 1) as nat)
    }
}

/// How one attempt of a DHT operation ended.
pub enum AttemptOutcome<T> {
    /// The operation returned a value.
    Succeeded(T),
    /// The DHT was not ready (`TryAgain`); the message explains why.
    TryAgain(String),
    /// Any other error, with its message.
    Failed(String),
}

/// Why a retried DHT operation failed.
#[derive(Debug, Clone)]
pub enum DhtError {
    /// Every attempt asked to try again; `message` is the last one's.
    Exhausted { attempts: u32, message: String },
    /// An attempt failed with an error that is not worth retrying.
    Failed { message: String },
}

/// What to do after an attempt.
pub enum RetryDecision<T> {
    /// Stop and return the value.
    Return(T),
    /// Sleep this many seconds, then make the next attempt.
    SleepThenRetry { secs: u64 },
    /// Stop with this error.
    GiveUp(DhtError),
}

/// Where a retry loop stands: the number of the attempt being made and the
/// wait that follows it if it asks to try again.
#[derive(Debug, Clone, Copy, PartialEq, Eq, Structural)]
pub struct RetryState {
    pub attempt: u32,
    pub backoff_secs: u64,
}

impl RetryState {
    /// The attempt number lies in `1..=MAX_RETRIES` and the backoff is the one
    /// that belongs to it.
    pub open spec fn wf(self) -> bool {
        &&& 1 <= self.attempt <= MAX_RETRIES
        &&& self.backoff_secs == backoff_after(self.attempt as nat)
    }

    /// The state before the first attempt.
    pub fn new() -> (s: RetryState)
        ensures
            s.wf(),
            s.attempt == 1,
            s.backoff_secs == INITIAL_BACKOFF_SECS,
    {
        RetryState { attempt: 1, backoff_secs: INITIAL_BACKOFF_SECS }
    }

    /// Decides what follows an attempt that ended with `outcome`.
    ///
    /// A value is returned at once; an error other than "try again" gives up
    /// at once; "try again" sleeps for the current backoff and doubles it,
    /// except after the last allowed attempt, where it gives up.
    pub fn decide<T>(self, outcome: AttemptOutcome<T>) -> (res: (RetryState, RetryDecision<T>))
        requires
            self.wf(),
        ensures
            res.0.wf(),
            outcome matches AttemptOutcome::Succeeded(v) ==> res.1 == RetryDecision::Return(v) && res.0 == self,
            outcome matches AttemptOutcome::Failed(m) ==> (res.1 matches RetryDecision::GiveUp(
                DhtError::Failed { message },
            ) && message@ == m@) && res.0 == self,
            outcome matches AttemptOutcome::TryAgain(m) ==> if self.attempt == MAX_RETRIES {
                &&& res.1 matches RetryDecision::GiveUp(DhtError::Exhausted { attempts, message })
                &&& attempts == MAX_RETRIES
                &&& message@ == m@
                &&& res.0 == self
            } else {
                &&& res.1 == RetryDecision::<T>::SleepThenRetry { secs: self.backoff_secs }
                &&& res.0.attempt == self.attempt + 1
                &&& res.0.backoff_secs == 2 * self.backoff_secs
            },
    {
        match outcome {
            AttemptOutcome::Succeeded(v) => (self, RetryDecision::Return(v)),
            AttemptOutcome::Failed(message) => (self, RetryDecision::GiveUp(DhtError::Failed { message })),
            AttemptOutcome::TryAgain(message) => {
                if self.attempt == MAX_RETRIES {
                    (self, RetryDecision::GiveUp(DhtError::Exhausted { attempts: MAX_RETRIES, message }))
                } else {
                    proof {
                        lemma_backoff_bound(self.attempt as nat);
                    }
                    let next = RetryState { attempt: self.attempt + 1, backoff_secs: self.backoff_secs * 2 };
                    proof {
                        lemma_backoff_bound(next.attempt as nat);
                    }
                    (next, RetryDecision::SleepThenRetry { secs: self.backoff_secs })
                }
            },
        }
    }
}

/// Backoffs stay small: the wait after attempt `n <= MAX_RETRIES` is at most 32 seconds.
proof fn lemma_backoff_bound(n: nat)
    requires
        n <= MAX_RETRIES,
    ensures
        backoff_after(n) <= 32,
{
    reveal_with_fuel(backoff_after, 6);
}

/// The waits of a loop that is told to try again every time are 2, 4, 8 and 16
/// seconds: 30 seconds in all before the fifth and last attempt.
pub proof fn lemma_backoff_schedule()
    ensures
        backoff_after(1) == 2,
        backoff_after(2) == 4,
        backoff_after(3) == 8,
        backoff_after(4) == 16,
        backoff_after(1) + backoff_after(2) + backoff_after(3) + backoff_after(4) == 30,
{
    reveal_with_fuel(backoff_after, 5);
}

} // verus!
