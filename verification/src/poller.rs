//! Bounded polling: what to do after each observation of a condition that
//! is checked again and again until it holds or a deadline has passed.
//!
//! The caller observes, measures the time since the wait began, asks for a
//! verdict and sleeps for as long as a `Retry` tells it to.

use vstd::prelude::*;

verus! {

/// Milliseconds between two readings of the browser console.
pub const CONSOLE_INTERVAL_MS: u64 = 10;

/// Milliseconds between two attempts to reach a TCP address.
pub const REACHABILITY_INTERVAL_MS: u64 = 100;

/// What follows an observation.
#[derive(Debug, Clone, PartialEq, Eq)]
pub enum Verdict<T> {
    /// The condition held in time; the wait is over.
    Satisfied(T),
    /// The condition does not hold yet: sleep, then observe again.
    Retry { wait_ms: u64 },
    /// The deadline has passed; the last observation is kept for diagnosis.
    TimedOut(T),
}

/// A polling rhythm and the deadline of the wait.
#[derive(Debug, Clone, Copy, PartialEq, Eq, Structural)]
pub struct Poller {
    /// Longest sleep between two observations, in milliseconds.
    pub interval_ms: u64,
    /// Length of the whole wait, in milliseconds.
    pub timeout_ms: u64,
}

impl Poller {
    /// The verdict on an observation made `elapsed_ms` after the wait began.
    ///
    /// An observation made after the deadline comes too late, whatever it
    /// shows. Before that a condition that holds ends the wait. Otherwise the
    /// wait goes on, but never past the deadline.
    pub open spec fn verdict<T>(self, elapsed_ms: u64, holds: bool, observed: T) -> Verdict<T> {
        if elapsed_ms > self.timeout_ms {
            Verdict::TimedOut(observed)
        } else if holds {
            Verdict::Satisfied(observed)
        } else if elapsed_ms == self.timeout_ms {
            Verdict::TimedOut(observed)
        } else if self.timeout_ms - elapsed_ms < self.interval_ms {
            Verdict::Retry { wait_ms: (self.timeout_ms - elapsed_ms) as u64 }
        } else {
            Verdict::Retry { wait_ms: self.interval_ms }
        }
    }

    /// A poller with the given rhythm and deadline.
    pub fn new(interval_ms: u64, timeout_ms: u64) -> (poller: Self)
        ensures
            poller.interval_ms == interval_ms,
            poller.timeout_ms == timeout_ms,
    {
        Poller { interval_ms, timeout_ms }
    }

    /// The poller that waits for console logs.
    pub fn for_console_logs(timeout_ms: u64) -> (poller: Self)
        ensures
            poller.interval_ms == CONSOLE_INTERVAL_MS,
            poller.timeout_ms == timeout_ms,
    {
        Poller { interval_ms: CONSOLE_INTERVAL_MS, timeout_ms }
    }

    /// The poller that waits for a TCP address to accept connections.
    pub fn for_reachability(timeout_ms: u64) -> (poller: Self)
        ensures
            poller.interval_ms == REACHABILITY_INTERVAL_MS,
            poller.timeout_ms == timeout_ms,
    {
        Poller { interval_ms: REACHABILITY_INTERVAL_MS, timeout_ms }
    }

    /// Judges one observation: `holds` says whether the condition held in
    /// `observed`, `elapsed_ms` how long the wait has lasted.
    pub fn judge<T>(&self, elapsed_ms: u64, holds: bool, observed: T) -> (verdict: Verdict<T>)
        ensures
            verdict == self.verdict(elapsed_ms, holds, observed),
    {
        if elapsed_ms > self.timeout_ms {
            Verdict::TimedOut(observed)
        } else if holds {
            Verdict::Satisfied(observed)
        } else if elapsed_ms == self.timeout_ms {
            Verdict::TimedOut(observed)
        } else {
            let left: u64 = self.timeout_ms - elapsed_ms;
            if left < self.interval_ms {
                Verdict::Retry { wait_ms: left }
            } else {
                Verdict::Retry { wait_ms: self.interval_ms }
            }
        }
    }
}

/// Success is owed exactly to a condition that holds no later than the
/// deadline, and it hands back what was observed.
pub proof fn lemma_satisfied_iff_holds_in_time<T>(
    poller: Poller,
    elapsed_ms: u64,
    holds: bool,
    observed: T,
)
    ensures
        poller.verdict(elapsed_ms, holds, observed) is Satisfied <==> holds && elapsed_ms
            <= poller.timeout_ms,
        poller.verdict(elapsed_ms, holds, observed) is Satisfied ==> poller.verdict(
            elapsed_ms,
            holds,
            observed,
        ) == Verdict::Satisfied(observed),
{
}

/// A timeout carries the last observation, and comes exactly when the
/// deadline is reached without the condition holding, or is passed.
pub proof fn lemma_timeout_keeps_last_observation<T>(
    poller: Poller,
    elapsed_ms: u64,
    holds: bool,
    observed: T,
)
    ensures
        poller.verdict(elapsed_ms, holds, observed) is TimedOut <==> elapsed_ms > poller.timeout_ms
            || (!holds && elapsed_ms == poller.timeout_ms),
        poller.verdict(elapsed_ms, holds, observed) is TimedOut ==> poller.verdict(
            elapsed_ms,
            holds,
            observed,
        ) == Verdict::TimedOut(observed),
{
}

/// A retry sleeps no longer than the interval and never past the deadline;
/// with a positive interval it sleeps for at least a millisecond, so the wait
/// moves towards its deadline.
pub proof fn lemma_retry_stays_within_deadline<T>(
    poller: Poller,
    elapsed_ms: u64,
    holds: bool,
    observed: T,
)
    ensures
        poller.verdict(elapsed_ms, holds, observed) matches Verdict::Retry { wait_ms } ==> {
            &&& !holds
            &&& wait_ms <= poller.interval_ms
            &&& elapsed_ms + wait_ms <= poller.timeout_ms
            &&& poller.interval_ms > 0 ==> wait_ms > 0
        },
{
}

/// How many observations a wait can take at most: one at the start, and one
/// after each sleep of at least a millisecond.
pub open spec fn most_observations(poller: Poller) -> int {
    poller.timeout_ms + 1
}

/// The sleep that follows an observation at `elapsed_ms` in which the
/// condition did not hold, if the wait goes on.
pub open spec fn sleep_after(poller: Poller, elapsed_ms: u64) -> Option<u64> {
    match poller.verdict(elapsed_ms, false, ()) {
        Verdict::Retry { wait_ms } => Some(wait_ms),
        _ => None,
    }
}

/// The times of the observations of one wait: each but the last was
/// answered by a retry, and the next one came no sooner than that retry's
/// sleep had ended.
pub open spec fn is_wait(poller: Poller, times: Seq<u64>) -> bool {
    forall|k: int|
        0 <= k < times.len() - 1 ==> {
            &&& (#[trigger] sleep_after(poller, times[k])) is Some
            &&& times[k] + sleep_after(poller, times[k]).unwrap() <= times[k + 1]
        }
}

/// A wait is bounded: with a positive interval no run of retries is longer
/// than the deadline allows.
pub proof fn lemma_wait_is_bounded(poller: Poller, times: Seq<u64>)
    requires
        poller.interval_ms > 0,
        is_wait(poller, times),
    ensures
        times.len() <= most_observations(poller),
{
    if times.len() > 0 {
        lemma_wait_advances(poller, times, times.len() - 1);
    }
}

/// The `k`-th observation of a wait is made at least `k` milliseconds after
/// its beginning, and all before it are made before the deadline.
proof fn lemma_wait_advances(poller: Poller, times: Seq<u64>, k: int)
    requires
        poller.interval_ms > 0,
        is_wait(poller, times),
        0 <= k < times.len(),
    ensures
        times[k] >= k,
        k <= poller.timeout_ms,
    decreases k,
{
    if k > 0 {
        lemma_wait_advances(poller, times, k - 1);
        assert(sleep_after(poller, times[k - 1]) is Some);
        lemma_retry_stays_within_deadline(poller, times[k - 1], false, ());
    }
}

} // verus!
