//! Uploader behaviour: the retry ladder's windows and bounds, and the
//! status-code policy.

use mdqc::errors::UploadError;
use mdqc::uploader::{
    attempt_result, bearer_header, delay_window, ingest_url, LadderStep, RetryLadder,
    MAX_UPLOAD_ATTEMPTS,
};

#[test]
fn delay_windows_match_the_ladder() {
    assert_eq!(delay_window(1), (0, 0));
    assert_eq!(delay_window(2), (20, 40));
    assert_eq!(delay_window(3), (90, 150));
    assert_eq!(delay_window(4), (480, 720));
    assert_eq!(delay_window(5), (3000, 4200));
}

#[test]
fn ladder_exhausts_after_exactly_five_failures() {
    let mut ladder = RetryLadder::new();
    assert_eq!(MAX_UPLOAD_ATTEMPTS, 5);

    // Four failures schedule the delays of attempts two to five.
    for expected_window in [(20, 40), (90, 150), (480, 720), (3000, 4200)] {
        match ladder.record_attempt(false) {
            LadderStep::RetryAfter(lo, hi) => assert_eq!((lo, hi), expected_window),
            _ => panic!("expected another attempt"),
        }
    }
    // The fifth failure exhausts the ladder.
    assert!(matches!(ladder.record_attempt(false), LadderStep::Exhausted));
    assert_eq!(ladder.attempts_made, 5);
    assert!(ladder.next_delay().is_none());
}

#[test]
fn ladder_stops_on_success() {
    let mut ladder = RetryLadder::new();
    assert!(matches!(ladder.record_attempt(false), LadderStep::RetryAfter(20, 40)));
    assert!(matches!(ladder.record_attempt(true), LadderStep::Delivered));
    assert_eq!(ladder.attempts_made, 2);
}

#[test]
fn status_policy() {
    assert!(attempt_result(200, "").is_ok());
    assert!(attempt_result(201, "").is_ok());
    assert!(attempt_result(299, "").is_ok());

    match attempt_result(401, "denied") {
        Err(UploadError::Authentication(m)) => assert_eq!(m, "status 401: denied"),
        _ => panic!("expected an authentication error"),
    }
    match attempt_result(403, "no") {
        Err(UploadError::Authentication(m)) => assert_eq!(m, "status 403: no"),
        _ => panic!("expected an authentication error"),
    }
    match attempt_result(500, "boom") {
        Err(UploadError::Server { status, message }) => {
            assert_eq!(status, 500);
            assert_eq!(message, "boom");
        }
        _ => panic!("expected a server error"),
    }
    match attempt_result(301, "moved") {
        Err(UploadError::Server { status, .. }) => assert_eq!(status, 301),
        _ => panic!("expected a server error"),
    }
}

#[test]
fn transport_strings() {
    assert_eq!(
        ingest_url("https://example.test/v1/"),
        "https://example.test/v1/ingest"
    );
    assert_eq!(bearer_header("tok"), "Bearer tok");
}
