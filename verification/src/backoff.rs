//! Retrying fallible work with a backoff policy.
//!
//! Every attempt ends in success, a permanent error or a transient error.
//! Success and permanent errors end the run at once. A transient error asks
//! the backoff policy for a delay: with one, the error is reported, the
//! delay elapses and the work is attempted again; without one, the run ends
//! with that transient error.

use vstd::prelude::*;

verus! {

/// An error, with whether retrying could help.
#[derive(Debug, PartialEq, Eq, Structural)]
pub enum BackoffError<E> {
    /// Retrying cannot succeed.
    Permanent(E),
    /// Retrying later may succeed.
    Transient(E),
}

impl<E> BackoffError<E> {
    pub open spec fn spec_inner(self) -> E {
        match self {
            BackoffError::Permanent(e) => e,
            BackoffError::Transient(e) => e,
        }
    }

    /// The underlying error, whatever its kind.
    pub fn from_backoff(self) -> (e: E)
        ensures
            e == self.spec_inner(),
    {
        match self {
            BackoffError::Permanent(e) => e,
            BackoffError::Transient(e) => e,
        }
    }

    pub fn is_transient(&self) -> (b: bool)
        ensures
            b == (*self is Transient),
    {
        match self {
            BackoffError::Permanent(_) => false,
            BackoffError::Transient(_) => true,
        }
    }
}

/// The verdict on one attempt.
pub enum Attempt<T, E> {
    /// The run is over with this outcome.
    Done(Result<T, BackoffError<E>>),
    /// The attempt failed transiently; the policy decides what follows.
    Retry(BackoffError<E>),
}

/// An attempt that succeeded or failed permanently ends the run; a
/// transient failure goes to the backoff policy.
pub open spec fn spec_judge<T, E>(res: Result<T, BackoffError<E>>) -> Attempt<T, E> {
    match res {
        Err(BackoffError::Transient(e)) => Attempt::Retry(BackoffError::Transient(e)),
        _ => Attempt::Done(res),
    }
}

pub fn judge_attempt<T, E>(res: Result<T, BackoffError<E>>) -> (verdict: Attempt<T, E>)
    ensures
        verdict == spec_judge(res),
{
    match res {
        Err(BackoffError::Transient(e)) => Attempt::Retry(BackoffError::Transient(e)),
        _ => Attempt::Done(res),
    }
}

/// What follows a transient failure.
pub enum RetryPlan<E, D> {
    /// Report `err`, let `delay` elapse, then attempt again.
    Wait { err: BackoffError<E>, delay: D },
    /// The policy has no delay left: the run ends with `err`.
    GiveUp(BackoffError<E>),
}

/// Given the transient error and the policy's next delay (none once the
/// policy is exhausted), decides between waiting and giving up.
pub open spec fn spec_plan<E, D>(err: BackoffError<E>, next_backoff: Option<D>) -> RetryPlan<E, D> {
    match next_backoff {
        Some(delay) => RetryPlan::Wait { err, delay },
        None => RetryPlan::GiveUp(err),
    }
}

pub fn plan_retry<E, D>(err: BackoffError<E>, next_backoff: Option<D>) -> (plan: RetryPlan<E, D>)
    ensures
        plan == spec_plan(err, next_backoff),
{
    match next_backoff {
        Some(delay) => RetryPlan::Wait { err, delay },
        None => RetryPlan::GiveUp(err),
    }
}

/// The outcome of a whole run, given the outcome of each attempt in turn and
/// the policy's answer after each transient failure; `None` when the given
/// outcomes run out before the run ends.
pub open spec fn run_outcome<T, E, D>(
    attempts: Seq<Result<T, BackoffError<E>>>,
    delays: Seq<Option<D>>,
) -> Option<Result<T, BackoffError<E>>>
    decreases attempts.len(),
{
    if attempts.len() == 0 {
        None
    } else {
        match spec_judge(attempts[0]) {
            Attempt::Done(res) => Some(res),
            Attempt::Retry(err) => if delays.len() == 0 {
                None
            } else {
                match spec_plan(err, delays[0]) {
                    RetryPlan::GiveUp(e) => Some(Err(e)),
                    RetryPlan::Wait { .. } => run_outcome(attempts.drop_first(), delays.drop_first()),
                }
            },
        }
    }
}

/// A run that meets only transient failures, with a delay after each of
/// them, ends with the first attempt that does not fail transiently: a
/// success or a permanent error is returned as is, however many retries
/// came before.
pub proof fn lemma_run_returns_first_final_attempt<T, E, D>(
    attempts: Seq<Result<T, BackoffError<E>>>,
    delays: Seq<Option<D>>,
    k: int,
)
    requires
        0 <= k < attempts.len(),
        k <= delays.len(),
        forall|i: int| 0 <= i < k ==> #[trigger] attempts[i] is Err && attempts[i]->Err_0 is Transient,
        forall|i: int| 0 <= i < k ==> #[trigger] delays[i] is Some,
        !(attempts[k] is Err && attempts[k]->Err_0 is Transient),
    ensures
        run_outcome(attempts, delays) == Some(attempts[k]),
    decreases k,
{
    if k > 0 {
        assert(attempts[0] is Err && attempts[0]->Err_0 is Transient);
        assert(delays[0] is Some);
        let a = attempts.drop_first();
        let d = delays.drop_first();
        assert forall|i: int| 0 <= i < k - 1 implies #[trigger] a[i] is Err && a[i]->Err_0 is Transient by {
            assert(a[i] == attempts[i + 1]);
        }
        assert forall|i: int| 0 <= i < k - 1 implies #[trigger] d[i] is Some by {
            assert(d[i] == delays[i + 1]);
        }
        lemma_run_returns_first_final_attempt(a, d, k - 1);
        assert(a[k - 1] == attempts[k]);
    }
}

/// A run whose policy is exhausted after `k` delays ends with the
/// transient error of attempt `k`, when every earlier attempt failed
/// transiently too.
pub proof fn lemma_run_gives_up_when_policy_exhausted<T, E, D>(
    attempts: Seq<Result<T, BackoffError<E>>>,
    delays: Seq<Option<D>>,
    k: int,
)
    requires
        0 <= k < attempts.len(),
        k < delays.len(),
        forall|i: int| 0 <= i <= k ==> #[trigger] attempts[i] is Err && attempts[i]->Err_0 is Transient,
        forall|i: int| 0 <= i < k ==> #[trigger] delays[i] is Some,
        delays[k] is None,
    ensures
        run_outcome(attempts, delays) == Some(attempts[k]),
    decreases k,
{
    if k > 0 {
        assert(attempts[0] is Err && attempts[0]->Err_0 is Transient);
        assert(delays[0] is Some);
        let a = attempts.drop_first();
        let d = delays.drop_first();
        assert forall|i: int| 0 <= i <= k - 1 implies #[trigger] a[i] is Err && a[i]->Err_0 is Transient by {
            assert(a[i] == attempts[i + 1]);
        }
        assert forall|i: int| 0 <= i < k - 1 implies #[trigger] d[i] is Some by {
            assert(d[i] == delays[i + 1]);
        }
        lemma_run_gives_up_when_policy_exhausted(a, d, k - 1);
        assert(a[k - 1] == attempts[k]);
    } else {
        assert(attempts[0] is Err && attempts[0]->Err_0 is Transient);
    }
}

} // verus!
