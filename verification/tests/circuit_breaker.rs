use herald::integrations::circuit_breaker::{CircuitBreaker, State};

#[test]
fn test_circuit_breaker_lifecycle() {
    let mut cb = CircuitBreaker::new("test", 3, 100);

    assert_eq!(cb.state(), State::Closed);
    assert!(cb.check_at(0).is_ok());

    cb.record_failure_at(1);
    cb.record_failure_at(2);
    assert_eq!(cb.state(), State::Closed);
    assert!(cb.check_at(3).is_ok());

    cb.record_failure_at(4);
    assert_eq!(cb.state(), State::Open);
    assert!(cb.check_at(5).is_err());

    // 150 ms later the cooldown has passed
    assert!(cb.check_at(154).is_ok());
    assert_eq!(cb.state(), State::HalfOpen);

    cb.record_success();
    assert_eq!(cb.state(), State::Closed);
}

#[test]
fn test_circuit_breaker_halfopen_failure() {
    let mut cb = CircuitBreaker::new("test", 2, 50);

    cb.record_failure_at(0);
    cb.record_failure_at(0);
    assert_eq!(cb.state(), State::Open);

    assert!(cb.check_at(60).is_ok());

    cb.record_failure_at(61);
    assert_eq!(cb.state(), State::Open);
}

#[test]
fn test_halfopen_allows_only_one_probe() {
    let mut cb = CircuitBreaker::new("test", 2, 50);

    cb.record_failure_at(0);
    cb.record_failure_at(0);
    assert_eq!(cb.state(), State::Open);

    assert!(cb.check_at(60).is_ok());
    assert_eq!(cb.state(), State::HalfOpen);

    assert!(cb.check_at(61).is_err());
    assert!(cb.check_at(62).is_err());

    cb.record_success();
    assert_eq!(cb.state(), State::Closed);

    assert!(cb.check_at(63).is_ok());
    assert!(cb.check_at(64).is_ok());
}

#[test]
fn test_success_resets_counter() {
    let mut cb = CircuitBreaker::new("test", 3, 30_000);

    cb.record_failure();
    cb.record_failure();
    cb.record_success();
    cb.record_failure();
    cb.record_failure();

    assert_eq!(cb.state(), State::Closed);
}

#[test]
fn open_breaker_reports_remaining_cooldown() {
    let mut cb = CircuitBreaker::new("sentry", 1, 30_000);
    cb.record_failure_at(1_000);
    let err = cb.check_at(6_000).unwrap_err();
    assert_eq!(err, "sentry circuit open (25s remaining)");
}

#[test]
fn probe_in_flight_message() {
    let mut cb = CircuitBreaker::new("courier", 1, 10);
    cb.record_failure_at(0);
    assert!(cb.check_at(10).is_ok());
    let err = cb.check_at(11).unwrap_err();
    assert_eq!(err, "courier circuit half-open (probe in progress)");
    assert_eq!(cb.failure_count(), 1);
}
