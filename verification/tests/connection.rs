//! The circuit breaker of the background task and the connection state of the
//! worker.

use dial9_tokio_telemetry::background_task::connection::CircuitBreaker;
use dial9_tokio_telemetry::time::{secs_or_zero, Duration};
use dial9_tokio_telemetry::worker::connection::S3ConnectionState;

#[test]
fn starts_closed() {
    let cb = CircuitBreaker::new();
    assert!(cb.is_closed());
    assert!(cb.should_attempt());
}

#[test]
fn opens_on_failure() {
    let mut cb = CircuitBreaker::new();
    cb.on_failure();
    assert!(!cb.is_closed());
    assert!(cb.current_backoff() == Some(Duration::from_secs(1)));
}

#[test]
fn closes_on_success() {
    let mut cb = CircuitBreaker::new();
    cb.on_failure();
    cb.on_success();
    assert!(cb.is_closed());
    assert!(cb.should_attempt());
}

#[test]
fn backoff_doubles_on_repeated_failures() {
    let mut cb = CircuitBreaker::new();
    cb.on_failure();
    assert!(cb.current_backoff() == Some(Duration::from_secs(1)));
    cb.on_failure();
    assert!(cb.current_backoff() == Some(Duration::from_secs(2)));
    cb.on_failure();
    assert!(cb.current_backoff() == Some(Duration::from_secs(4)));
}

#[test]
fn backoff_caps_at_max() {
    let mut cb = CircuitBreaker::new();
    for _ in 0..20 {
        cb.on_failure();
    }
    assert!(cb.current_backoff() == Some(Duration::from_secs(300)));
}

#[test]
fn success_resets_backoff() {
    let mut cb = CircuitBreaker::new();
    cb.on_failure();
    cb.on_failure();
    cb.on_success();
    assert!(cb.is_closed());
    assert!(cb.current_backoff() == None);
    cb.on_failure();
    assert!(cb.current_backoff() == Some(Duration::from_secs(1)));
}

#[test]
fn starts_healthy() {
    let state = S3ConnectionState::healthy();
    assert!(state.is_healthy());
    assert!(state.should_attempt_upload());
    assert!(state.current_backoff().is_none());
}

#[test]
fn failure_transitions_to_degraded() {
    let mut state = S3ConnectionState::healthy();
    state.on_failure();
    assert!(!state.is_healthy());
    assert_eq!(state.current_backoff(), Some(Duration::from_secs(1)));
}

#[test]
fn success_transitions_back_to_healthy() {
    let mut state = S3ConnectionState::healthy();
    state.on_failure();
    assert!(!state.is_healthy());
    state.on_success();
    assert!(state.is_healthy());
}

#[test]
fn connection_backoff_doubles_on_repeated_failures() {
    let mut state = S3ConnectionState::healthy();
    state.on_failure();
    assert_eq!(state.current_backoff(), Some(Duration::from_secs(1)));
    state.on_failure();
    assert_eq!(state.current_backoff(), Some(Duration::from_secs(2)));
    state.on_failure();
    assert_eq!(state.current_backoff(), Some(Duration::from_secs(4)));
}

#[test]
fn backoff_caps_at_five_minutes() {
    let mut state = S3ConnectionState::healthy();
    // Drive backoff past the cap: 1, 2, 4, 8, 16, 32, 64, 128, 256, 300, 300
    for _ in 0..20 {
        state.on_failure();
    }
    assert_eq!(state.current_backoff(), Some(Duration::from_secs(300)));
}

#[test]
fn recovery_resets_backoff() {
    let mut state = S3ConnectionState::healthy();
    state.on_failure();
    state.on_failure();
    state.on_failure();
    assert_eq!(state.current_backoff(), Some(Duration::from_secs(4)));

    state.on_success();
    assert!(state.is_healthy());
    assert!(state.current_backoff().is_none());

    // Next failure starts from initial backoff again
    state.on_failure();
    assert_eq!(state.current_backoff(), Some(Duration::from_secs(1)));
}

#[test]
fn degraded_blocks_upload_until_retry_time() {
    let mut state = S3ConnectionState::healthy();
    state.on_failure();
    // Just failed: the backoff is 1s, so should_attempt_upload is false
    assert!(!state.should_attempt_upload());
    assert!(!state.should_attempt_upload_after(Duration::from_millis(999)));
    assert!(state.should_attempt_upload_after(Duration::from_secs(1)));
}

#[test]
fn open_breaker_lets_through_after_backoff() {
    let mut cb = CircuitBreaker::new();
    cb.on_failure();
    assert!(!cb.should_attempt());
    assert!(!cb.should_attempt_after(Duration::from_millis(999)));
    assert!(cb.should_attempt_after(Duration::from_millis(1000)));
}

#[test]
fn backoff_sequence_is_exact() {
    let mut cb = CircuitBreaker::new();
    let mut seen = Vec::new();
    for _ in 0..11 {
        cb.on_failure();
        seen.push(cb.current_backoff().unwrap().as_nanos() / 1_000_000_000);
    }
    assert_eq!(seen, vec![1, 2, 4, 8, 16, 32, 64, 128, 256, 300, 300]);
}

#[test]
fn zero_backoff_is_over_at_once() {
    let since = std::time::Instant::now();
    let backoff = Duration::from_secs(0);
    assert!(CircuitBreaker::Open { since, backoff }.should_attempt());
    assert!(S3ConnectionState::Degraded { since, backoff }.should_attempt_upload());
}

#[test]
fn clock_before_the_epoch_reads_zero() {
    assert_eq!(secs_or_zero(Some(1741209000)), 1741209000);
    assert_eq!(secs_or_zero(None), 0);
}

#[test]
fn wait_begins_with_the_last_failure() {
    let first = std::time::Instant::now();
    let second = first + std::time::Duration::from_secs(7);
    let mut cb = CircuitBreaker::new();
    cb.on_failure_at(first);
    cb.on_failure_at(second);
    match cb {
        CircuitBreaker::Open { since, backoff } => {
            assert_eq!(since, second);
            assert_eq!(backoff, Duration::from_secs(2));
        }
        CircuitBreaker::Closed => panic!("expected an open circuit"),
    }
    let mut state = S3ConnectionState::healthy();
    state.on_failure_at(first);
    state.on_failure_at(second);
    match state {
        S3ConnectionState::Degraded { since, backoff } => {
            assert_eq!(since, second);
            assert_eq!(backoff, Duration::from_secs(2));
        }
        S3ConnectionState::Healthy => panic!("expected a degraded connection"),
    }
}

#[test]
fn failure_is_dated_by_the_clock() {
    let earlier = std::time::Instant::now();
    let mut cb = CircuitBreaker::new();
    let mut state = S3ConnectionState::healthy();
    cb.on_failure();
    state.on_failure();
    let middle = std::time::Instant::now();
    cb.on_failure();
    state.on_failure();
    match (cb, state) {
        (CircuitBreaker::Open { since: a, .. }, S3ConnectionState::Degraded { since: b, .. }) => {
            assert!(earlier <= middle && middle <= a && middle <= b);
        }
        _ => panic!("expected two waits"),
    }
}
