use unsealer::admission::{AdmissionError, RateLimiter, RateLimiterConfig};

const CAP: usize = 1_048_576;

fn limiter() -> RateLimiter {
    RateLimiter::new(RateLimiterConfig { refill_per_sec: 2, burst: 5 })
}

#[test]
fn scenario_burst_exceeded_is_rejected() {
    let mut l = limiter();
    // Five requests within one second fit the burst; the sixth is shed
    // before any cryptographic work would run.
    for _ in 0..5 {
        assert!(l.admit_request(1, 1000, 100, CAP).is_ok());
    }
    let rejected = l.admit_request(1, 1100, 100, CAP);
    assert_eq!(rejected.unwrap_err(), AdmissionError::RateLimited);
}

#[test]
fn bucket_refills_over_time() {
    let mut l = limiter();
    for _ in 0..5 {
        assert!(l.admit_request(1, 1000, 100, CAP).is_ok());
    }
    assert!(l.admit_request(1, 1001, 100, CAP).is_err());
    // Two tokens per second: half a second buys one token back.
    assert!(l.admit_request(1, 1501, 100, CAP).is_ok());
    assert!(l.admit_request(1, 1502, 100, CAP).is_err());
}

#[test]
fn sources_are_limited_independently() {
    let mut l = limiter();
    for _ in 0..5 {
        assert!(l.admit_request(1, 1000, 100, CAP).is_ok());
    }
    assert!(l.admit_request(1, 1000, 100, CAP).is_err());
    assert!(l.admit_request(2, 1000, 100, CAP).is_ok());
}

#[test]
fn oversized_body_is_rejected_first() {
    let mut l = limiter();
    let rejected = l.admit_request(1, 1000, CAP + 1, CAP);
    assert_eq!(rejected.unwrap_err(), AdmissionError::BodyTooLarge);
    // The size rejection spent no token.
    for _ in 0..5 {
        assert!(l.admit_request(1, 1000, 100, CAP).is_ok());
    }
}

#[test]
fn admission_errors_map_to_their_statuses() {
    assert_eq!(AdmissionError::BodyTooLarge.http_status(), 413);
    assert_eq!(AdmissionError::RateLimited.http_status(), 429);
    assert_eq!(AdmissionError::Timeout.http_status(), 504);
}
