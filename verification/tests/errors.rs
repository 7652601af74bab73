use eventcore::errors::CommandError;
use eventcore::resilience::{CircuitBreaker, CircuitBreakerConfig, CircuitState, IsCircuitBreakerError};
use eventcore::types::{EventId, EventStoreError, StreamId};

#[test]
fn command_error_messages() {
    let a = StreamId::try_new("account-1").unwrap();
    let b = StreamId::try_new("account-2").unwrap();
    assert_eq!(
        CommandError::ConcurrencyConflict { streams: vec![a.clone(), b.clone()] }.message(),
        "concurrency conflict on streams: account-1, account-2"
    );
    assert_eq!(
        CommandError::InvalidStreamAccess { stream: a.clone(), declared_streams: vec![b.clone()] }.message(),
        "invalid access to stream account-1; declared streams: account-2"
    );
    assert_eq!(
        CommandError::StreamNotDeclared { stream: b, command_type: "Transfer".to_string() }.message(),
        "stream account-2 was not declared by command Transfer"
    );
    assert_eq!(CommandError::Timeout(250).message(), "command timed out after 250 ms");
    assert_eq!(
        CommandError::EventStore(EventStoreError::StreamNotFound(a)).message(),
        "event store error: stream not found: account-1"
    );
    assert_eq!(
        CommandError::TypeMismatch { expected: "A".to_string(), found: "B".to_string() }.message(),
        "type mismatch: expected A, found B"
    );
}

#[test]
fn event_store_error_messages() {
    let id = EventId::from_u128(1);
    assert_eq!(
        EventStoreError::DuplicateEventId(id).message(),
        "duplicate event id: 00000000-0000-0000-0000-000000000001"
    );
    assert_eq!(EventStoreError::Io("eof".to_string()).message(), "i/o error: eof");
    assert_eq!(EventStoreError::Unavailable("maintenance".to_string()).message(), "store unavailable: maintenance");
}

#[test]
fn store_errors_that_trip_the_breaker() {
    for e in [
        EventStoreError::ConnectionFailed("x".to_string()),
        EventStoreError::Timeout("x".to_string()),
        EventStoreError::Unavailable("x".to_string()),
        EventStoreError::TransactionRollback("x".to_string()),
        EventStoreError::Io("x".to_string()),
        EventStoreError::Internal("x".to_string()),
    ] {
        assert!(e.should_trigger_circuit_breaker(), "{e:?}");
    }
    for e in [
        EventStoreError::SerializationFailed("x".to_string()),
        EventStoreError::DeserializationFailed("x".to_string()),
        EventStoreError::VersionConflict,
        EventStoreError::StreamNotFound(StreamId::try_new("s").unwrap()),
        EventStoreError::DuplicateEventId(EventId::from_u128(7)),
        EventStoreError::Configuration("x".to_string()),
        EventStoreError::SchemaEvolutionError("x".to_string()),
    ] {
        assert!(!e.should_trigger_circuit_breaker(), "{e:?}");
    }
}

#[test]
fn command_errors_that_trip_the_breaker() {
    assert!(CommandError::Timeout(1).should_trigger_circuit_breaker());
    assert!(CommandError::Internal("x".to_string()).should_trigger_circuit_breaker());
    assert!(CommandError::EventStore(EventStoreError::Io("x".to_string())).should_trigger_circuit_breaker());
    assert!(!CommandError::EventStore(EventStoreError::VersionConflict).should_trigger_circuit_breaker());
    assert!(!CommandError::ValidationFailed("x".to_string()).should_trigger_circuit_breaker());
    assert!(!CommandError::Unauthorized("x".to_string()).should_trigger_circuit_breaker());
}

#[test]
fn circuit_breaker_stats_snapshot() {
    let mut cb = CircuitBreaker::new("orders-db".to_string(), CircuitBreakerConfig::default());
    let stats = cb.stats();
    assert_eq!(stats.name, "orders-db");
    assert_eq!(stats.state, CircuitState::Closed);
    assert_eq!(stats.request_count, 0);
    assert_eq!(stats.failure_rate_basis_points, 0);

    cb.record_success();
    assert!(cb.begin_call());
    cb.finish_call(true);
    cb.record_success();
    cb.record_success();
    let stats = cb.stats();
    assert_eq!(stats.request_count, 4);
    assert_eq!(stats.failure_count, 1);
    assert_eq!(stats.failure_rate_basis_points, 2500);
    assert_eq!(stats.config.window_size.into_inner(), 100);
    assert_eq!(cb.name(), "orders-db");
}
