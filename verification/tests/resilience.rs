use eventcore::resilience::{
    CircuitBreaker, CircuitBreakerConfig, CircuitResult, CircuitState, FailureThreshold, IsCircuitBreakerError,
    MinRequests, RangeError, TimeoutMs, WindowSize,
};

#[derive(Debug)]
enum TestError {
    Transient,
    Permanent,
}

impl IsCircuitBreakerError for TestError {
    fn should_trigger_circuit_breaker(&self) -> bool {
        matches!(self, Self::Transient)
    }
}

fn call(cb: &mut CircuitBreaker, outcome: Result<i32, TestError>) -> CircuitResult<Result<i32, TestError>> {
    if !cb.begin_call() {
        return CircuitResult::CircuitOpen;
    }
    let triggers = match &outcome {
        Ok(_) => false,
        Err(e) => e.should_trigger_circuit_breaker(),
    };
    cb.finish_call(triggers);
    CircuitResult::Success(outcome)
}

fn sensitive_config() -> CircuitBreakerConfig {
    CircuitBreakerConfig {
        failure_threshold: FailureThreshold::try_new(5000).unwrap(),
        min_requests: MinRequests::try_new(2).unwrap(),
        window_size: WindowSize::try_new(10).unwrap(),
        timeout: TimeoutMs::try_new(100).unwrap(),
        enabled: true,
    }
}

#[test]
fn circuit_breaker_starts_closed_and_stays_closed_on_success() {
    let mut cb = CircuitBreaker::new("test".to_string(), CircuitBreakerConfig::default());
    assert_eq!(cb.state(), CircuitState::Closed);
    let result = call(&mut cb, Ok(42));
    assert!(result.is_success());
    assert_eq!(cb.state(), CircuitState::Closed);
}

#[test]
fn circuit_breaker_opens_after_failures_and_rejects_calls() {
    let mut cb = CircuitBreaker::new("test".to_string(), sensitive_config());

    let result = call(&mut cb, Err(TestError::Transient));
    assert!(result.is_success());
    assert_eq!(cb.state(), CircuitState::Closed);

    let result = call(&mut cb, Err(TestError::Transient));
    assert!(result.is_success());
    assert_eq!(cb.state(), CircuitState::Open);

    let result = call(&mut cb, Ok(42));
    assert!(result.is_circuit_open());
}

#[test]
fn circuit_breaker_half_open_after_timeout_closes_on_success() {
    let mut cb = CircuitBreaker::new("test".to_string(), sensitive_config());
    let _ = call(&mut cb, Err(TestError::Transient));
    let _ = call(&mut cb, Err(TestError::Transient));
    assert_eq!(cb.state(), CircuitState::Open);

    assert!(!cb.can_attempt_request(Some(50_000_000)));
    assert_eq!(cb.state(), CircuitState::Open);
    assert!(cb.can_attempt_request(Some(150_000_000)));
    assert_eq!(cb.state(), CircuitState::HalfOpen);

    cb.finish_call(false);
    assert_eq!(cb.state(), CircuitState::Closed);
}

#[test]
fn circuit_breaker_ignores_non_triggering_errors() {
    let mut cb = CircuitBreaker::new("test".to_string(), sensitive_config());
    for _ in 0..10 {
        let result = call(&mut cb, Err(TestError::Permanent));
        assert!(result.is_success());
    }
    assert_eq!(cb.state(), CircuitState::Closed);
    assert_eq!(cb.failure_rate_basis_points(), 0);
    assert_eq!(cb.request_count(), 10);
}

#[test]
fn disabled_circuit_breaker_passes_everything() {
    let config = CircuitBreakerConfig { enabled: false, ..CircuitBreakerConfig::default() };
    let mut cb = CircuitBreaker::new("test".to_string(), config);
    for _ in 0..10 {
        let result = call(&mut cb, Err(TestError::Transient));
        assert!(result.is_success());
    }
    assert_eq!(cb.state(), CircuitState::Closed);
    assert_eq!(cb.request_count(), 0);
}

#[test]
fn window_keeps_only_recent_calls() {
    let mut cb = CircuitBreaker::new("window".to_string(), sensitive_config());
    for _ in 0..10 {
        let _ = call(&mut cb, Ok(1));
    }
    let _ = call(&mut cb, Err(TestError::Transient));
    assert_eq!(cb.failure_count(), 1);
    assert_eq!(cb.failure_rate_basis_points(), 1000);
    assert_eq!(cb.state(), CircuitState::Closed);
}

#[test]
fn configuration_values_are_validated() {
    assert_eq!(FailureThreshold::try_new(10001).unwrap_err(), RangeError::TooLarge);
    assert!(WindowSize::try_new(5).is_err());
    assert!(MinRequests::try_new(0).is_err());
    assert!(TimeoutMs::try_new(0).is_err());
    let config = CircuitBreakerConfig::default();
    assert_eq!(config.failure_threshold.into_inner(), 5000);
    assert_eq!(config.timeout.into_inner(), 30_000);
    assert_eq!(config.window_size.into_inner(), 100);
    assert_eq!(config.min_requests.into_inner(), 10);
}

#[test]
fn circuit_results_unwrap() {
    assert_eq!(CircuitResult::Success(3).unwrap_or(7), 3);
    assert_eq!(CircuitResult::<i32>::CircuitOpen.unwrap_or(7), 7);
    assert_eq!(CircuitResult::<i32>::Failure.unwrap_or(7), 7);
    assert!(CircuitResult::<i32>::Failure.is_failure());
    assert_eq!(CircuitState::Open.as_str(), "open");
    assert_eq!(CircuitState::HalfOpen.as_str(), "half-open");
}
