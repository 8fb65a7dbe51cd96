//! Retrying a remote call until it succeeds.
//!
//! Every failure of the call is taken to be transient: after each one the caller
//! waits for the delay that an exponential backoff policy grants and tries
//! again. The policy has no limit on the time spent, so it grants a delay
//! after every failure and the call ends only with a success. The embedding
//! program makes the attempts and does the waiting; the [`Retrier`] decides
//! what follows each attempt.

use backoff::backoff::Backoff;
use backoff::exponential::ExponentialBackoff;
use backoff::SystemClock;
use std::time::Duration;
use vstd::prelude::*;

verus! {

/// The exponential backoff policy of the crate `backoff`, carried as it is:
/// nothing is known of what it holds.
#[verifier::external_type_specification]
#[verifier::external_body]
#[verifier::reject_recursive_types(C)]
pub struct ExExponentialBackoff<C>(ExponentialBackoff<C>);

/// The clock of the crate `backoff` that reads the system's time, carried as
/// it is.
#[verifier::external_type_specification]
#[verifier::external_body]
pub struct ExSystemClock(SystemClock);

/// What to do after an attempt.
#[derive(Debug, PartialEq)]
pub enum RetryAction<T, E> {
    /// The attempt succeeded: hand the value on and make no further attempt.
    Finish(T),
    /// The attempt failed: report the cause, wait for the delay and try again.
    RetryAfter { delay: Duration, cause: E },
    /// The attempt failed and the policy grants no further delay: stop. A
    /// [`Retrier`] never decides so, since its policy has no limit on the time
    /// spent.
    GiveUp(E),
}

/// What follows an attempt that ended in `outcome`, where `delay` is what the
/// backoff policy grants after a failure.
pub open spec fn decision<T, E>(outcome: Result<T, E>, delay: Option<Duration>) -> RetryAction<T, E> {
    match outcome {
        Ok(value) => RetryAction::Finish(value),
        Err(cause) => match delay {
            Some(delay) => RetryAction::RetryAfter { delay, cause },
            None => RetryAction::GiveUp(cause),
        },
    }
}

/// The actions taken over a run of attempts with a policy that grants a delay
/// after every failure, where `outcomes[i]` is how the attempt `i` ends and
/// `delays[i]` is the delay granted after it. The run stops at the first
/// action that is not a retry.
pub open spec fn actions<T, E>(outcomes: Seq<Result<T, E>>, delays: Seq<Duration>) -> Seq<
    RetryAction<T, E>,
>
    decreases outcomes.len(),
{
    if outcomes.len() == 0 || delays.len() == 0 {
        Seq::empty()
    } else {
        let first = decision(outcomes.first(), Some(delays.first()));
        if first is RetryAfter {
            seq![first] + actions(outcomes.drop_first(), delays.drop_first())
        } else {
            seq![first]
        }
    }
}

/// An operation that fails `n` times and succeeds at the next attempt is
/// retried exactly `n` times, once after each failure, and the run ends with
/// the value of the success: no attempt is made after it, and the call is
/// never given up.
pub proof fn lemma_success_after_failures<T, E>(
    outcomes: Seq<Result<T, E>>,
    delays: Seq<Duration>,
    n: nat,
)
    requires
        n < outcomes.len(),
        outcomes.len() <= delays.len(),
        forall|i: int| 0 <= i < n ==> outcomes[i] is Err,
        outcomes[n as int] is Ok,
    ensures
        actions(outcomes, delays).len() == n + 1,
        forall|i: int|
            0 <= i < n ==> actions(outcomes, delays)[i] == (RetryAction::<T, E>::RetryAfter {
                delay: delays[i],
                cause: outcomes[i]->Err_0,
            }),
        actions(outcomes, delays)[n as int] == RetryAction::<T, E>::Finish(
            outcomes[n as int]->Ok_0,
        ),
    decreases n,
{
    if n > 0 {
        let rest_outcomes = outcomes.drop_first();
        let rest_delays = delays.drop_first();
        assert forall|i: int| 0 <= i < n - 1 implies rest_outcomes[i] is Err by {
            assert(rest_outcomes[i] == outcomes[i + 1]);
        }
        lemma_success_after_failures(rest_outcomes, rest_delays, (n - 1) as nat);
        let rest = actions(rest_outcomes, rest_delays);
        let all = actions(outcomes, delays);
        assert(outcomes[0] is Err);
        assert(all == seq![decision(outcomes[0], Some(delays[0]))] + rest);
        assert forall|i: int| 0 <= i < n implies all[i] == (RetryAction::<T, E>::RetryAfter {
            delay: delays[i],
            cause: outcomes[i]->Err_0,
        }) by {
            if i > 0 {
                assert(all[i] == rest[i - 1]);
                assert(rest_outcomes[i - 1] == outcomes[i]);
                assert(rest_delays[i - 1] == delays[i]);
            }
        }
        assert(all[n as int] == rest[n - 1]);
    }
}

/// The time after which a policy of the crate `backoff` grants no further
/// delay: its field `max_elapsed_time`. `None` stands for no such time.
pub uninterp spec fn time_limit(policy: ExponentialBackoff<SystemClock>) -> Option<Duration>;

/// Builds a policy with `ExponentialBackoff::default()` of the crate
/// `backoff`. Nothing is claimed of the policy.
#[verifier::external_body]
fn default_policy() -> ExponentialBackoff<SystemClock> {
    ExponentialBackoff::default()
}

/// Sets the field `max_elapsed_time` of a policy of the crate `backoff`: the
/// time after which the policy grants no further delay, or `None` for no such
/// time. The claim is that the field then holds what was given.
#[verifier::external_body]
fn set_time_limit(policy: &mut ExponentialBackoff<SystemClock>, limit: Option<Duration>)
    ensures
        time_limit(*final(policy)) == limit,
{
    policy.max_elapsed_time = limit;
}

/// Asks the policy for the next delay with `Backoff::next_backoff` of the
/// crate `backoff`. The delay is drawn at random around an interval that
/// grows from call to call, so nothing is claimed of its length. The claims
/// are two: the call leaves the policy's time limit as it is, and a policy
/// without a time limit grants a delay. The function returns `None` only
/// where a limit is set and the time spent exceeds it.
#[verifier::external_body]
fn next_delay(policy: &mut ExponentialBackoff<SystemClock>) -> (delay: Option<Duration>)
    ensures
        time_limit(*final(policy)) == time_limit(*old(policy)),
        time_limit(*old(policy)) is None ==> delay is Some,
{
    policy.next_backoff()
}

/// Decides what follows an attempt that ended in `outcome`, given the delay
/// that the backoff policy grants after a failure.
pub fn decide<T, E>(outcome: Result<T, E>, delay: Option<Duration>) -> (action: RetryAction<T, E>)
    ensures
        action == decision(outcome, delay),
{
    match outcome {
        Ok(value) => RetryAction::Finish(value),
        Err(cause) => match delay {
            Some(delay) => RetryAction::RetryAfter { delay, cause },
            None => RetryAction::GiveUp(cause),
        },
    }
}

/// The retries of one remote call.
pub struct Retrier {
    policy: ExponentialBackoff<SystemClock>,
}

impl Retrier {
    /// Whether the policy has no limit on the time spent, so that it grants a
    /// delay after every failure.
    pub closed spec fn unlimited(&self) -> bool {
        time_limit(self.policy) is None
    }

    /// A retrier for one call, with a fresh policy that has no limit on the
    /// time spent.
    pub fn new() -> (retrier: Retrier)
        ensures
            retrier.unlimited(),
    {
        let mut policy = default_policy();
        set_time_limit(&mut policy, None);
        Retrier { policy }
    }

    /// Takes the outcome of an attempt and tells what follows.
    ///
    /// A success finishes the call with its value, and the policy is not
    /// consulted. After a failure the policy is asked for a delay, and the
    /// call is retried after it: every failure is retried. The cause of the
    /// failure is handed back for reporting.
    pub fn on_attempt<T, E>(&mut self, outcome: Result<T, E>) -> (action: RetryAction<T, E>)
        requires
            old(self).unlimited(),
        ensures
            final(self).unlimited(),
            outcome is Ok ==> action == RetryAction::<T, E>::Finish(outcome->Ok_0),
            outcome is Err ==> action is RetryAfter && action->cause == outcome->Err_0,
            exists|delay: Option<Duration>|
                action == #[trigger] decision(outcome, delay) && (outcome is Err ==> delay is Some),
    {
        match outcome {
            Ok(value) => {
                let action = decide(Ok(value), None);
                assert(action == decision(outcome, None::<Duration>));
                action
            },
            Err(cause) => {
                let delay = next_delay(&mut self.policy);
                let action = decide(Err(cause), delay);
                assert(action == decision(outcome, delay));
                action
            },
        }
    }
}

} // verus!
