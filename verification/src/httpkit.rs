//! The retry policy of the HTTP client: which failed requests are worth
//! retrying.

use crate::backoff::BackoffError;
use reqwest::Error as ReqwestError;
use vstd::prelude::*;

verus! {

/// The user agent the HTTP client announces.
pub const USER_AGENT: &'static str = "valet self-updater";

/// A 5xx status: the server failed, and may not fail again.
pub open spec fn is_server_error(status: u16) -> bool {
    500 <= status && status <= 599
}

/// Whether a failure is worth retrying: a response with an error status is
/// retried only for server errors (5xx); a failure without a status is
/// retried only when it was a timeout.
pub open spec fn is_transient_failure(status: Option<u16>, is_timeout: bool) -> bool {
    match status {
        Some(code) => is_server_error(code),
        None => is_timeout,
    }
}

/// The retry policy in full: a failure with a status is retried exactly when
/// the status is a server error, 500 to 599, whatever is known of timeouts;
/// a failure without a status is retried exactly when it timed out.
pub proof fn lemma_retry_policy(status: Option<u16>, is_timeout: bool)
    ensures
        status matches Some(code) ==> (is_transient_failure(status, is_timeout) <==> (500 <= code
            && code <= 599)),
        status is None ==> (is_transient_failure(status, is_timeout) <==> is_timeout),
        forall|code: u16, t: bool|
            500 <= code <= 599 ==> #[trigger] is_transient_failure(Some(code), t),
        forall|code: u16, t: bool|
            (code < 500 || code > 599) ==> !#[trigger] is_transient_failure(Some(code), t),
{
}

/// Sorts a failed request into transient or permanent. `status` is the
/// error status the server answered with, when the failure is one;
/// `is_timeout` tells whether the request timed out.
pub fn classify_failure<E>(err: E, status: Option<u16>, is_timeout: bool) -> (res: BackoffError<E>)
    ensures
        res.spec_inner() == err,
        (res is Transient) == is_transient_failure(status, is_timeout),
        status matches Some(code) ==> ((res is Transient) <==> (500 <= code && code <= 599)),
        status is None ==> ((res is Transient) <==> is_timeout),
{
    let transient = match status {
        Some(code) => 500 <= code && code <= 599,
        None => is_timeout,
    };
    if transient {
        BackoffError::Transient(err)
    } else {
        BackoffError::Permanent(err)
    }
}

/// What `reqwest::Error::status` reports of an error, as a number: the
/// status of the response the error was made from, or `None` for a failure
/// that has no response. It is a function of the error value alone.
pub uninterp spec fn spec_error_status(e: ReqwestError) -> Option<u16>;

/// What `reqwest::Error::is_timeout` reports of an error: whether the
/// failure, or one of its sources, was a timeout. It is a function of the
/// error value alone.
pub uninterp spec fn spec_error_is_timeout(e: ReqwestError) -> bool;

/// `reqwest::Error::status`, with the status code as a number. The result is
/// named, not described: which errors carry a status is reqwest's business.
#[verifier::external_body]
fn error_status_code(e: &ReqwestError) -> (status: Option<u16>)
    ensures
        status == spec_error_status(*e),
{
    match e.status() {
        Some(code) => Some(code.as_u16()),
        None => None,
    }
}

/// `reqwest::Error::is_timeout`. The result is named, not described: it walks
/// the error's chain of sources inside reqwest.
#[verifier::external_body]
fn error_is_timeout(e: &ReqwestError) -> (timed_out: bool)
    ensures
        timed_out == spec_error_is_timeout(*e),
{
    e.is_timeout()
}

/// Sorts a failed request of the HTTP client: an error status is looked at
/// first, and is transient only for a server error (5xx); a failure without
/// a status is transient only when it timed out. The error itself is handed
/// back inside the verdict.
pub fn classify_request_error(e: ReqwestError) -> (res: BackoffError<ReqwestError>)
    ensures
        res.spec_inner() == e,
        (res is Transient) <==> is_transient_failure(spec_error_status(e), spec_error_is_timeout(e)),
        spec_error_status(e) matches Some(code) ==> ((res is Transient) <==> (500 <= code && code
            <= 599)),
        spec_error_status(e) is None ==> ((res is Transient) <==> spec_error_is_timeout(e)),
{
    let status = error_status_code(&e);
    let is_timeout = match status {
        Some(_) => false,
        None => error_is_timeout(&e),
    };
    classify_failure(e, status, is_timeout)
}

} // verus!
