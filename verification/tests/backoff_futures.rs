use std::time::Duration;

use backoff::backoff::Backoff;
use backoff::ExponentialBackoff;
use valet::backoff::{judge_attempt, plan_retry, Attempt, BackoffError, RetryPlan};

/// Drives a run the way the asynchronous retry loop does, without sleeping.
fn run_with_backoff<T, E, B, W, N>(
    mut backoff: B,
    mut work: W,
    mut notify: N,
) -> Result<T, BackoffError<E>>
where
    B: Backoff,
    W: FnMut() -> Result<T, BackoffError<E>>,
    N: FnMut(&BackoffError<E>, Duration),
{
    loop {
        match judge_attempt(work()) {
            Attempt::Done(res) => return res,
            Attempt::Retry(err) => match plan_retry(err, backoff.next_backoff()) {
                RetryPlan::Wait { err, delay } => notify(&err, delay),
                RetryPlan::GiveUp(err) => return Err(err),
            },
        }
    }
}

#[test]
fn test_future_is_send() {
    fn do_work() -> Result<u32, BackoffError<()>> {
        Ok(123)
    }

    let runtime = tokio::runtime::Runtime::new().unwrap();
    let handle = runtime.spawn(async move {
        let backoff = ExponentialBackoff::default();
        run_with_backoff(backoff, do_work, |_, _| {})
    });
    let result = runtime.block_on(handle).unwrap();
    assert_eq!(result.ok(), Some(123));
}

#[test]
fn test_when_future_succeeds() {
    fn do_work() -> Result<u32, BackoffError<()>> {
        Ok(123)
    }

    let backoff = ExponentialBackoff::default();
    let result: Result<u32, BackoffError<()>> = run_with_backoff(backoff, do_work, |_, _| {});
    assert_eq!(result.ok(), Some(123));
}

#[test]
fn test_with_closure_when_future_succeeds() {
    let do_work = || Ok(123);

    let backoff = ExponentialBackoff::default();
    let result: Result<u32, BackoffError<()>> = run_with_backoff(backoff, do_work, |_, _| {});
    assert_eq!(result.ok(), Some(123));
}

#[test]
fn test_with_closure_when_future_fails_with_permanent_error() {
    let do_work = || Err(BackoffError::Permanent(()));

    let backoff = ExponentialBackoff::default();
    let result: Result<u32, BackoffError<()>> = run_with_backoff(backoff, do_work, |_, _| {});
    assert!(matches!(result.err(), Some(BackoffError::Permanent(_))));
}

#[test]
fn test_with_async_fn_when_future_succeeds() {
    fn do_work() -> Result<u32, BackoffError<()>> {
        Ok(123)
    }

    let backoff = ExponentialBackoff::default();
    let result: Result<u32, BackoffError<()>> = run_with_backoff(backoff, do_work, |_, _| {});
    assert_eq!(result.ok(), Some(123));
}

#[test]
fn test_with_async_fn_when_future_fails_for_some_time() {
    const CALLS_TO_SUCCESS: usize = 5;
    let mut call_counter: usize = 0;

    let do_work = || {
        call_counter += 1;
        if call_counter != CALLS_TO_SUCCESS {
            Err(BackoffError::Transient(()))
        } else {
            Ok(123)
        }
    };

    let mut backoff = ExponentialBackoff::default();
    backoff.current_interval = Duration::from_millis(1);
    backoff.initial_interval = Duration::from_millis(1);

    let mut notify_counter = 0;

    let result = run_with_backoff(backoff, do_work, |e, d| {
        notify_counter += 1;
        println!("Error {:?}, waiting for: {}", e, d.as_millis());
    });

    assert_eq!(call_counter, CALLS_TO_SUCCESS);
    assert_eq!(CALLS_TO_SUCCESS, notify_counter + 1);
    assert_eq!(result.ok(), Some(123));
}

#[test]
fn transient_error_is_returned_when_policy_is_exhausted() {
    let mut calls = 0;
    let mut delays = vec![Some(Duration::from_millis(1)), Some(Duration::from_millis(2)), None];
    delays.reverse();
    let mut notified = Vec::new();
    let result: Result<u32, BackoffError<u32>> = loop {
        calls += 1;
        match judge_attempt(Err(BackoffError::Transient(calls))) {
            Attempt::Done(res) => break res,
            Attempt::Retry(err) => match plan_retry(err, delays.pop().unwrap()) {
                RetryPlan::Wait { err, delay } => notified.push((err, delay)),
                RetryPlan::GiveUp(err) => break Err(err),
            },
        }
    };
    assert_eq!(calls, 3);
    assert_eq!(notified.len(), 2);
    assert_eq!(result, Err(BackoffError::Transient(3)));
}

#[test]
fn permanent_error_ends_run_without_consulting_policy() {
    match judge_attempt::<u32, &str>(Err(BackoffError::Permanent("gone"))) {
        Attempt::Done(res) => assert_eq!(res, Err(BackoffError::Permanent("gone"))),
        Attempt::Retry(_) => panic!("permanent errors are not retried"),
    }
}

#[test]
fn from_backoff_unwraps_both_kinds() {
    assert_eq!(BackoffError::Permanent(7).from_backoff(), 7);
    assert_eq!(BackoffError::Transient(8).from_backoff(), 8);
    assert!(BackoffError::Transient(1).is_transient());
    assert!(!BackoffError::Permanent(1).is_transient());
}
