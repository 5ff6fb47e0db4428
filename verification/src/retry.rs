//! Retry decisions: which failures are tried again, how often, and what is
//! returned when the attempts run out.
//!
//! How long to wait between two attempts is not decided here: it is the
//! answer of a backoff schedule that the caller keeps, and the library
//! takes that answer in.

use vstd::prelude::*;
use crate::error::ApiError;
use std::time::Duration;

verus! {

/// How often and how fast to retry. Intervals are in milliseconds; the
/// growth factor is in thousandths, so `2000` doubles the interval.
#[derive(Debug, Clone, Copy, PartialEq, Eq, Structural)]
pub struct RetryConfig {
    pub max_retries: usize,
    pub initial_interval_ms: u64,
    pub max_interval_ms: u64,
    pub multiplier_milli: u32,
}

impl RetryConfig {
    /// Three attempts, starting at half a second, doubling, capped at
    /// thirty seconds.
    pub open spec fn standard() -> RetryConfig {
        RetryConfig {
            max_retries: 3,
            initial_interval_ms: 500,
            max_interval_ms: 30_000,
            multiplier_milli: 2000,
        }
    }
}

impl Default for RetryConfig {
    fn default() -> (r: Self)
        ensures
            r == RetryConfig::standard(),
    {
        RetryConfig {
            max_retries: 3,
            initial_interval_ms: 500,
            max_interval_ms: 30_000,
            multiplier_milli: 2000,
        }
    }
}

/// What an attempt calls for.
#[derive(Debug)]
pub enum Verdict<T> {
    /// Stop and return this result.
    Done(Result<T, ApiError>),
    /// Ask the schedule for a wait and try again; the failure is the one
    /// that the attempt ended in.
    Retry(ApiError),
}

/// What to do after an attempt that is to be retried, once the schedule
/// has answered.
#[derive(Debug)]
pub enum RetryStep<T> {
    /// Stop and return this result.
    Done(Result<T, ApiError>),
    /// Sleep this long, then try again.
    Wait(Duration),
}

/// The attempt count after one more attempt.
pub open spec fn counted(attempts: usize) -> usize {
    if attempts < usize::MAX {
        (attempts + 1) as usize
    } else {
        attempts
    }
}

/// An attempt that ended in `outcome`, as attempt number `attempts` of at
/// most `max_retries`, is followed by another one.
pub open spec fn retries<T>(outcome: Result<T, ApiError>, attempts: usize, max_retries: usize) -> bool {
    match outcome {
        Ok(_) => false,
        Err(e) => e.retryable() && attempts < max_retries,
    }
}

/// What an attempt calls for that ended in `outcome` as attempt number
/// `attempts` of at most `max_retries`: a success is returned; a failure
/// is returned unchanged when it is not retryable or the ceiling is
/// reached; any other failure is retried.
pub open spec fn verdict_of<T>(
    outcome: Result<T, ApiError>,
    attempts: usize,
    max_retries: usize,
) -> Verdict<T> {
    match outcome {
        Ok(value) => Verdict::Done(Ok(value)),
        Err(e) => if e.retryable() && attempts < max_retries {
            Verdict::Retry(e)
        } else {
            Verdict::Done(Err(e))
        },
    }
}

/// The step that follows the schedule's answer, for an attempt that is to
/// be retried: wait as long as the schedule says, or give up with
/// `Timeout` when the schedule has run out.
pub open spec fn backoff_step<T>(wait: Option<Duration>, attempts: usize) -> RetryStep<T> {
    match wait {
        Some(d) => RetryStep::Wait(d),
        None => RetryStep::Done(Err(ApiError::Timeout { attempts })),
    }
}

/// Turns the schedule's answer into the next step.
pub fn after_backoff<T>(wait: Option<Duration>, attempts: usize) -> (r: RetryStep<T>)
    ensures
        r == backoff_step::<T>(wait, attempts),
{
    match wait {
        Some(d) => RetryStep::Wait(d),
        None => RetryStep::Done(Err(ApiError::Timeout { attempts })),
    }
}

/// The attempts made so far for one request, and the ceiling on them.
#[derive(Debug, Clone, Copy)]
pub struct RetryState {
    max_retries: usize,
    attempts: usize,
}

impl RetryState {
    /// The number of attempts recorded.
    pub closed spec fn made(&self) -> usize {
        self.attempts
    }

    /// The ceiling on attempts.
    pub closed spec fn ceiling(&self) -> usize {
        self.max_retries
    }

    /// Starts counting for one request.
    pub fn new(config: &RetryConfig) -> (r: Self)
        ensures
            r.made() == 0,
            r.ceiling() == config.max_retries,
    {
        RetryState { max_retries: config.max_retries, attempts: 0 }
    }

    /// The number of attempts recorded.
    pub fn attempts(&self) -> (r: usize)
        ensures
            r == self.made(),
    {
        self.attempts
    }

    /// Records the outcome of one attempt and says what it calls for.
    ///
    /// A success is returned at once. A failure is returned unchanged when
    /// it is not retryable or when the ceiling is reached. Any other
    /// failure is to be retried, after the wait that the schedule gives:
    /// see [`after_backoff`](Self::after_backoff).
    pub fn on_outcome<T>(&mut self, outcome: Result<T, ApiError>) -> (r: Verdict<T>)
        ensures
            final(self).made() == counted(old(self).made()),
            final(self).ceiling() == old(self).ceiling(),
            r == verdict_of(outcome, final(self).made(), final(self).ceiling()),
    {
        if self.attempts < usize::MAX {
            self.attempts = self.attempts + 1;
        }
        match outcome {
            Ok(value) => Verdict::Done(Ok(value)),
            Err(e) => {
                if e.is_retryable() && self.attempts < self.max_retries {
                    Verdict::Retry(e)
                } else {
                    Verdict::Done(Err(e))
                }
            },
        }
    }

    /// Turns the schedule's answer into the next step: wait as long as it
    /// says, or, should the schedule have run out, fail with `Timeout`
    /// carrying the attempts made.
    pub fn after_backoff<T>(&self, wait: Option<Duration>) -> (r: RetryStep<T>)
        ensures
            r == backoff_step::<T>(wait, self.made()),
    {
        after_backoff(wait, self.attempts)
    }
}

/// The outcomes are those of the attempts of one run, in order: there is
/// at least one, and each but the last was followed by another attempt.
pub open spec fn in_sequence<T>(outcomes: Seq<Result<T, ApiError>>, max_retries: usize) -> bool {
    &&& 1 <= outcomes.len() <= usize::MAX
    &&& forall|i: int|
        0 <= i < outcomes.len() - 1 ==> retries(
            #[trigger] outcomes[i],
            (i + 1) as usize,
            max_retries,
        )
}

/// The attempts of one run ended in `outcomes`, one after the other: each
/// is what `operation` returned, and each but the last was followed by
/// another attempt.
pub open spec fn attempted<T, F: Fn() -> Result<T, ApiError>>(
    operation: F,
    outcomes: Seq<Result<T, ApiError>>,
    max_retries: usize,
) -> bool {
    &&& in_sequence(outcomes, max_retries)
    &&& forall|i: int|
        0 <= i < outcomes.len() ==> call_ensures(operation, (), #[trigger] outcomes[i])
}

/// What a run returns whose attempts ended in `outcomes`: the last outcome,
/// unless that one was to be retried and the schedule answered that it had
/// run out, which gives `Timeout` with the number of attempts made.
pub open spec fn concluded<T, W: Fn() -> Option<Duration>>(
    next_wait: W,
    outcomes: Seq<Result<T, ApiError>>,
    max_retries: usize,
    r: Result<T, ApiError>,
) -> bool {
    if retries(outcomes.last(), outcomes.len() as usize, max_retries) {
        &&& r == Err::<T, ApiError>(ApiError::Timeout { attempts: outcomes.len() as usize })
        &&& call_ensures(next_wait, (), None::<Duration>)
    } else {
        r == outcomes.last()
    }
}

/// Runs `operation` until it succeeds, fails for good, or the attempts run
/// out. Before each further attempt the schedule is asked for a wait
/// through `next_wait`, and `sleep` is called with it.
///
/// The result is the outcome of the last attempt. Only where the schedule
/// answers that it has run out before the ceiling is reached, it is
/// `Timeout` with the number of attempts made.
pub fn retry_with_backoff<T, F, W, S>(
    config: &RetryConfig,
    operation: F,
    next_wait: W,
    sleep: S,
) -> (r: Result<T, ApiError>) where
    F: Fn() -> Result<T, ApiError>,
    W: Fn() -> Option<Duration>,
    S: Fn(Duration) -> (),

    requires
        call_requires(operation, ()),
        call_requires(next_wait, ()),
        forall|d: Duration| call_requires(sleep, (d,)),
    ensures
        exists|outcomes: Seq<Result<T, ApiError>>| #[trigger]
            attempted(operation, outcomes, config.max_retries) && concluded(
                next_wait,
                outcomes,
                config.max_retries,
                r,
            ),
{
    let mut state = RetryState::new(config);
    let ghost mut outcomes: Seq<Result<T, ApiError>> = Seq::empty();
    loop
        invariant
            call_requires(operation, ()),
            call_requires(next_wait, ()),
            forall|d: Duration| call_requires(sleep, (d,)),
            state.ceiling() == config.max_retries,
            state.made() < config.max_retries || state.made() == 0,
            state.made() == outcomes.len(),
            forall|i: int|
                0 <= i < outcomes.len() ==> call_ensures(operation, (), #[trigger] outcomes[i]),
            forall|i: int|
                0 <= i < outcomes.len() ==> retries(
                    #[trigger] outcomes[i],
                    (i + 1) as usize,
                    config.max_retries,
                ),
        decreases config.max_retries - state.made(),
    {
        let outcome = operation();
        proof {
            outcomes = outcomes.push(outcome);
        }
        match state.on_outcome(outcome) {
            Verdict::Done(result) => {
                proof {
                    assert(outcomes.last() == outcome);
                    assert(attempted(operation, outcomes, config.max_retries));
                    assert(concluded(next_wait, outcomes, config.max_retries, result));
                }
                return result;
            },
            Verdict::Retry(_) => {
                match state.after_backoff(next_wait()) {
                    RetryStep::Done(result) => {
                        proof {
                            assert(outcomes.last() == outcome);
                            assert(attempted(operation, outcomes, config.max_retries));
                            assert(concluded(next_wait, outcomes, config.max_retries, result));
                        }
                        return result;
                    },
                    RetryStep::Wait(wait) => {
                        sleep(wait);
                    },
                }
            },
        }
    }
}

/// A run makes one attempt where the first outcome is not to be retried,
/// never more than `max_retries` unless that is 0, and exactly
/// `max_retries` where it ends, of itself, in a retryable failure. With a
/// schedule that never runs out, a run always ends in the outcome of its
/// last attempt.
pub proof fn lemma_attempts_made<T, W: Fn() -> Option<Duration>>(
    next_wait: W,
    outcomes: Seq<Result<T, ApiError>>,
    max_retries: usize,
    r: Result<T, ApiError>,
)
    requires
        in_sequence(outcomes, max_retries),
        concluded(next_wait, outcomes, max_retries, r),
    ensures
        1 <= outcomes.len(),
        outcomes.len() <= max_retries || outcomes.len() == 1,
        !retries(outcomes[0], 1, max_retries) ==> outcomes.len() == 1 && r == outcomes[0],
        !retries(outcomes.last(), outcomes.len() as usize, max_retries) ==> r == outcomes.last(),
        !retries(outcomes.last(), outcomes.len() as usize, max_retries) && (
        outcomes.last() matches Err(e) && e.retryable()) && max_retries >= 1 ==> outcomes.len()
            == max_retries,
        (forall|wait: Option<Duration>| call_ensures(next_wait, (), wait) ==> wait is Some) ==> r
            == outcomes.last() && (outcomes.last() matches Err(e) && e.retryable() && max_retries
            >= 1 ==> outcomes.len() == max_retries),
{
    let n = outcomes.len();
    if n > 1 {
        assert(retries(outcomes[n - 2], (n - 2 + 1) as usize, max_retries));
        assert(retries(outcomes[0], (0 + 1) as usize, max_retries));
    }
}

/// A failure that is not retryable ends the attempts wherever they stand:
/// it is returned after the attempt that met it, and no schedule is asked.
pub proof fn lemma_not_retryable_is_final<T>(e: ApiError, attempts: usize, max_retries: usize)
    requires
        !e.retryable(),
    ensures
        !retries(Err::<T, ApiError>(e), attempts, max_retries),
        verdict_of(Err::<T, ApiError>(e), attempts, max_retries) == Verdict::Done(
            Err::<T, ApiError>(e),
        ),
{
}

/// At the ceiling every outcome is final: attempt number `max_retries`
/// returns its own error, not a `Timeout` made up for it.
pub proof fn lemma_ceiling_is_final<T>(
    outcome: Result<T, ApiError>,
    attempts: usize,
    max_retries: usize,
)
    requires
        attempts >= max_retries,
    ensures
        !retries(outcome, attempts, max_retries),
        verdict_of(outcome, attempts, max_retries) == Verdict::Done(outcome),
{
}

/// Below the ceiling a retryable failure is tried again, so that a
/// request that keeps failing that way is attempted `max_retries` times.
pub proof fn lemma_retryable_below_ceiling<T>(e: ApiError, attempts: usize, max_retries: usize)
    requires
        e.retryable(),
        attempts < max_retries,
    ensures
        retries(Err::<T, ApiError>(e), attempts, max_retries),
        verdict_of(Err::<T, ApiError>(e), attempts, max_retries) == Verdict::<T>::Retry(e),
{
}

/// `Timeout` is only ever made up by a schedule that has run out.
pub proof fn lemma_timeout_only_without_wait<T>(wait: Option<Duration>, attempts: usize)
    ensures
        backoff_step::<T>(wait, attempts) is Done <==> wait is None,
        wait is None ==> backoff_step::<T>(wait, attempts) == RetryStep::Done(
            Err::<T, ApiError>(ApiError::Timeout { attempts }),
        ),
{
}

} // verus!
