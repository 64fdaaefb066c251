use starmap::backoff::{
    backoff_seconds, is_rate_limit_status, is_retryable_status, parse_retry_after, retry_delay,
    MAX_RETRIES,
};

#[test]
fn backoff_grows_exponentially() {
    assert_eq!(backoff_seconds(0), 2);
    assert_eq!(backoff_seconds(1), 4);
    assert_eq!(backoff_seconds(2), 8);
    assert_eq!(backoff_seconds(3), 16);
}

#[test]
fn backoff_saturates() {
    assert_eq!(backoff_seconds(62), 1u64 << 63);
    assert_eq!(backoff_seconds(63), u64::MAX);
    assert_eq!(backoff_seconds(1000), u64::MAX);
}

#[test]
fn rate_limit_statuses() {
    assert!(is_rate_limit_status(403));
    assert!(is_rate_limit_status(429));
    assert!(!is_rate_limit_status(200));
    assert!(!is_rate_limit_status(404));
}

#[test]
fn retryable_statuses() {
    assert!(is_retryable_status(403));
    assert!(is_retryable_status(429));
    assert!(is_retryable_status(502));
    assert!(is_retryable_status(503));
    assert!(is_retryable_status(504));
    assert!(!is_retryable_status(200));
    assert!(!is_retryable_status(404));
}

#[test]
fn retry_after_header() {
    assert_eq!(parse_retry_after(Some(" 30 ")), Some(30));
    assert_eq!(parse_retry_after(Some("+7")), Some(7));
    assert_eq!(parse_retry_after(Some("-7")), None);
    assert_eq!(parse_retry_after(Some("+")), None);
    assert_eq!(parse_retry_after(Some("")), None);
    assert_eq!(parse_retry_after(Some("1.5")), None);
    assert_eq!(parse_retry_after(Some("18446744073709551615")), Some(u64::MAX));
    assert_eq!(parse_retry_after(Some("18446744073709551616")), None);
    assert_eq!(parse_retry_after(None), None);
}

#[test]
fn delay_prefers_retry_after() {
    assert_eq!(retry_delay(Some(5), 3), 5);
    assert_eq!(retry_delay(None, 3), 16);
    assert_eq!(MAX_RETRIES, 4);
}

#[test]
fn only_transient_server_errors_retry() {
    assert!(is_retryable_status(500));
    assert!(!is_retryable_status(501));
    assert!(!is_retryable_status(505));
    assert!(!is_retryable_status(599));
    assert!(!is_retryable_status(401));
}
