use valet::backoff::BackoffError;
use valet::httpkit::{classify_failure, USER_AGENT};

#[test]
fn server_errors_are_transient() {
    assert_eq!(classify_failure("e", Some(500), false), BackoffError::Transient("e"));
    assert_eq!(classify_failure("e", Some(503), false), BackoffError::Transient("e"));
    assert_eq!(classify_failure("e", Some(599), false), BackoffError::Transient("e"));
}

#[test]
fn client_errors_are_permanent_even_on_timeout() {
    assert_eq!(classify_failure("e", Some(404), false), BackoffError::Permanent("e"));
    assert_eq!(classify_failure("e", Some(404), true), BackoffError::Permanent("e"));
    assert_eq!(classify_failure("e", Some(600), false), BackoffError::Permanent("e"));
    assert_eq!(classify_failure("e", Some(499), false), BackoffError::Permanent("e"));
}

#[test]
fn failures_without_status_are_transient_only_on_timeout() {
    assert_eq!(classify_failure(1, None, true), BackoffError::Transient(1));
    assert_eq!(classify_failure(1, None, false), BackoffError::Permanent(1));
}

#[test]
fn user_agent_is_the_self_updater() {
    assert_eq!(USER_AGENT, "valet self-updater");
}

fn status_error(code: u16) -> reqwest::Error {
    let response: reqwest::Response = http::Response::builder()
        .status(code)
        .body("")
        .unwrap()
        .into();
    response.error_for_status().unwrap_err()
}

#[test]
fn request_errors_with_server_status_are_retried() {
    let verdict = valet::httpkit::classify_request_error(status_error(503));
    assert!(verdict.is_transient());
    assert_eq!(verdict.from_backoff().status().map(|s| s.as_u16()), Some(503));
}

#[test]
fn request_errors_with_client_status_are_not_retried() {
    let verdict = valet::httpkit::classify_request_error(status_error(404));
    assert!(!verdict.is_transient());
    assert_eq!(verdict.from_backoff().status().map(|s| s.as_u16()), Some(404));
}

#[test]
fn request_errors_without_status_or_timeout_are_not_retried() {
    let err = reqwest::Client::new().get("not a url").build().unwrap_err();
    assert!(err.status().is_none() && !err.is_timeout());
    assert!(!valet::httpkit::classify_request_error(err).is_transient());
}
