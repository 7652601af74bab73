use eventcore::health::{
    overall_status, timed_out_result, HealthCheck, HealthCheckRegistry, HealthCheckResult, HealthStatus,
    MemoryUsageHealthCheck, ProjectionHealthCheck, StoreConnectivity, StoreProbe, EventStoreHealthCheck,
};
use eventcore::pipeline::ProjectionError;
use eventcore::types::{EventId, StreamId};

const MILLI: u64 = 1_000_000;

#[test]
fn health_status_equality() {
    assert_eq!(HealthStatus::Healthy, HealthStatus::Healthy);
    assert_eq!(HealthStatus::Degraded, HealthStatus::Degraded);
    assert_eq!(HealthStatus::Unhealthy, HealthStatus::Unhealthy);

    assert_ne!(HealthStatus::Healthy, HealthStatus::Degraded);
    assert_ne!(HealthStatus::Healthy, HealthStatus::Unhealthy);
    assert_ne!(HealthStatus::Degraded, HealthStatus::Unhealthy);
}

#[test]
fn health_check_result_creation() {
    let duration = 100 * MILLI;

    let healthy = HealthCheckResult::healthy("All good".to_string(), duration);
    assert!(healthy.is_healthy());
    assert!(!healthy.is_degraded());
    assert!(!healthy.is_unhealthy());
    assert_eq!(healthy.message, "All good");
    assert_eq!(healthy.duration, duration);

    let degraded = HealthCheckResult::degraded("Some issues".to_string(), duration);
    assert!(!degraded.is_healthy());
    assert!(degraded.is_degraded());
    assert!(!degraded.is_unhealthy());

    let unhealthy = HealthCheckResult::unhealthy("Critical error".to_string(), duration);
    assert!(!unhealthy.is_healthy());
    assert!(!unhealthy.is_degraded());
    assert!(unhealthy.is_unhealthy());
}

#[test]
fn health_check_result_with_metadata() {
    let result = HealthCheckResult::healthy("Test".to_string(), 50 * MILLI)
        .with_metadata("key1".to_string(), "value1".to_string())
        .with_metadata("key2".to_string(), "value2".to_string());

    assert_eq!(result.metadata.get("key1"), Some(&"value1".to_string()));
    assert_eq!(result.metadata.get("key2"), Some(&"value2".to_string()));
}

#[test]
fn projection_health_check_creation() {
    let health_check = ProjectionHealthCheck::new("test_projection".to_string(), 30_000 * MILLI);

    assert_eq!(health_check.name(), "test_projection");
    assert_eq!(health_check.get_error_count(), 0);
    assert!(health_check.get_lag().is_none());
}

#[test]
fn memory_usage_health_check_creation() {
    let health_check = MemoryUsageHealthCheck::new("memory".to_string(), 500, 1000);
    assert_eq!(health_check.name(), "memory");
    assert_eq!(health_check.warning_threshold_mb, 500);
    assert_eq!(health_check.critical_threshold_mb, 1000);
}

#[test]
fn health_check_registry_creation() {
    let registry: HealthCheckRegistry = HealthCheckRegistry::new();
    assert!(registry.list_checks().is_empty());
}

#[test]
fn projection_health_check_with_events() {
    let mut health_check = ProjectionHealthCheck::new("test_projection".to_string(), 30_000 * MILLI);
    health_check.record_event_processed(EventId::new());
    let result = health_check.check();
    assert!(result.is_healthy());
    assert!(health_check.get_lag().is_some());
}

#[test]
fn projection_without_events_is_unhealthy() {
    let health_check = ProjectionHealthCheck::new("p".to_string(), 30_000 * MILLI);
    let result = health_check.check();
    assert!(result.is_unhealthy());
    assert_eq!(result.message, "Projection has not processed any events");
    assert_eq!(result.metadata.get("error_count"), Some(&"0".to_string()));
    assert!(result.metadata.get("lag_ms").is_none());
}

#[test]
fn projection_status_thresholds() {
    let mut health_check = ProjectionHealthCheck::new("p".to_string(), 1_000 * MILLI);
    let within = health_check.evaluate(Some(250 * MILLI), 7);
    assert!(within.is_healthy());
    assert_eq!(within.message, "Projection is healthy, lag: 250ms");
    assert_eq!(within.duration, 7);

    let behind = health_check.evaluate(Some(2_000 * MILLI), 0);
    assert!(behind.is_degraded());
    assert_eq!(behind.message, "Projection is degraded, lag: 2000ms, errors: 0");

    health_check.record_error(&ProjectionError::Failed("boom".to_string()));
    assert_eq!(health_check.get_error_count(), 1);
    let behind_with_errors = health_check.evaluate(Some(2_000 * MILLI), 0);
    assert!(behind_with_errors.is_unhealthy());
    assert_eq!(behind_with_errors.message, "Projection is unhealthy, lag: 2000ms, errors: 1");
    assert_eq!(behind_with_errors.metadata.get("lag_ms"), Some(&"2000".to_string()));

    for _ in 0..10 {
        health_check.record_error(&ProjectionError::Failed("again".to_string()));
    }
    let many_errors = health_check.evaluate(Some(10 * MILLI), 0);
    assert!(many_errors.is_degraded());
    assert_eq!(many_errors.message, "Projection is degraded, lag: 10ms, errors: 11");
}

#[test]
fn memory_usage_health_check_normal() {
    let health_check = MemoryUsageHealthCheck::new("memory".to_string(), 500, 1000);
    let result = health_check.check();
    assert!(result.is_healthy());
    assert!(result.message.contains("Memory usage normal"));
    assert_eq!(result.message, "Memory usage normal: 100MB");
    assert_eq!(result.metadata.get("memory_usage_mb"), Some(&"100".to_string()));
    assert_eq!(result.metadata.get("warning_threshold_mb"), Some(&"500".to_string()));
    assert_eq!(result.metadata.get("critical_threshold_mb"), Some(&"1000".to_string()));
}

#[test]
fn memory_usage_thresholds() {
    let check = MemoryUsageHealthCheck::new("memory".to_string(), 50, 100);
    assert!(check.evaluate(49, 0).is_healthy());
    let high = check.evaluate(50, 0);
    assert!(high.is_degraded());
    assert_eq!(high.message, "Memory usage high: 50MB");
    let critical = check.evaluate(100, 0);
    assert!(critical.is_unhealthy());
    assert_eq!(critical.message, "Memory usage critical: 100MB");
}

struct FixedProbe(StoreProbe);

impl StoreConnectivity for FixedProbe {
    fn probe_stream(&self, _stream_id: &StreamId) -> StoreProbe {
        self.0.clone()
    }
}

#[test]
fn event_store_health_check_outcomes() {
    let stream = StreamId::try_new("health-check-stream").unwrap();
    let check = EventStoreHealthCheck::new(FixedProbe(StoreProbe::Reachable), stream.clone());
    assert_eq!(EventStoreHealthCheck::<FixedProbe>::name(&check), "event_store_connectivity");
    assert_eq!(EventStoreHealthCheck::<FixedProbe>::timeout(&check), 10_000_000_000);
    let ok = check.evaluate(StoreProbe::Reachable, 3 * MILLI);
    assert!(ok.is_healthy());
    assert_eq!(ok.message, "Event store is accessible");
    assert_eq!(ok.metadata.get("stream_id"), Some(&"health-check-stream".to_string()));
    assert_eq!(ok.metadata.get("response_time_ms"), Some(&"3".to_string()));

    let refused = check.evaluate(StoreProbe::ConnectionFailed, 0);
    assert!(refused.is_unhealthy());
    assert_eq!(refused.metadata.get("error_type"), Some(&"connection".to_string()));

    let slow = check.evaluate(StoreProbe::TimedOut, 0);
    assert!(slow.is_degraded());
    assert_eq!(slow.message, "Event store response timeout");

    let other = check.evaluate(StoreProbe::Failed("disk full".to_string()), 0);
    assert!(other.is_degraded());
    assert_eq!(other.message, "Event store error: disk full");
    assert_eq!(other.metadata.get("error_type"), Some(&"other".to_string()));

    let via_trait = HealthCheck::check(&check);
    assert!(via_trait.is_healthy());
}

#[test]
fn health_check_registry_register_and_unregister() {
    let mut registry: HealthCheckRegistry = HealthCheckRegistry::new();
    registry.register(Box::new(MemoryUsageHealthCheck::new("memory".to_string(), 500, 1000)));
    registry.register(Box::new(ProjectionHealthCheck::new("orders".to_string(), 1_000 * MILLI)));
    registry.register(Box::new(MemoryUsageHealthCheck::new("memory".to_string(), 10, 20)));
    assert_eq!(registry.list_checks(), vec!["memory".to_string(), "orders".to_string()]);

    let results = registry.check_all();
    assert_eq!(results.len(), 2);
    assert_eq!(results[0].0, "memory");
    assert!(results[0].1.is_unhealthy());
    assert!(registry.check_one("orders").is_some());
    assert!(registry.check_one("nonexistent").is_none());
    assert_eq!(registry.overall_health(), HealthStatus::Unhealthy);

    registry.unregister("memory");
    registry.unregister("memory");
    assert_eq!(registry.list_checks(), vec!["orders".to_string()]);
}

#[test]
fn health_check_registry_overall_health() {
    let mut registry: HealthCheckRegistry = HealthCheckRegistry::new();
    assert_eq!(registry.overall_health(), HealthStatus::Unhealthy);
    registry.register(Box::new(MemoryUsageHealthCheck::new("memory".to_string(), 500, 1000)));
    assert_eq!(registry.overall_health(), HealthStatus::Healthy);
}

#[test]
fn overall_status_rules() {
    assert_eq!(overall_status(&[]), HealthStatus::Unhealthy);
    assert_eq!(overall_status(&[HealthStatus::Healthy, HealthStatus::Healthy]), HealthStatus::Healthy);
    assert_eq!(overall_status(&[HealthStatus::Healthy, HealthStatus::Degraded]), HealthStatus::Degraded);
    assert_eq!(
        overall_status(&[HealthStatus::Degraded, HealthStatus::Unhealthy, HealthStatus::Healthy]),
        HealthStatus::Unhealthy
    );
}

#[test]
fn timed_out_check_is_unhealthy() {
    let r = timed_out_result(5_000 * MILLI);
    assert!(r.is_unhealthy());
    assert_eq!(r.message, "Health check timed out");
    assert_eq!(r.duration, 5_000 * MILLI);
}

#[test]
fn default_check_timeout_is_five_seconds() {
    let check = ProjectionHealthCheck::new("p".to_string(), 1);
    assert_eq!(HealthCheck::timeout(&check), 5_000_000_000);
}

#[test]
fn overall_health_follows_each_registered_check() {
    let mut registry: HealthCheckRegistry = HealthCheckRegistry::new();
    registry.register(Box::new(MemoryUsageHealthCheck::new("memory".to_string(), 500, 1000)));
    registry.register(Box::new(MemoryUsageHealthCheck::new("tight".to_string(), 50, 1000)));
    assert_eq!(registry.overall_health(), HealthStatus::Degraded);
    registry.register(Box::new(MemoryUsageHealthCheck::new("tight".to_string(), 10, 20)));
    assert_eq!(registry.overall_health(), HealthStatus::Unhealthy);
    registry.unregister("tight");
    assert_eq!(registry.overall_health(), HealthStatus::Healthy);
}

#[test]
fn projection_check_reports_message_and_metadata() {
    let check = ProjectionHealthCheck::new("orders".to_string(), 1_000 * MILLI);
    let r = check.evaluate(Some(250 * MILLI), 7);
    assert_eq!(r.status, HealthStatus::Healthy);
    assert_eq!(r.message, "Projection is healthy, lag: 250ms");
    assert_eq!(r.metadata.get("lag_ms").map(String::as_str), Some("250"));
    assert_eq!(r.metadata.get("error_count").map(String::as_str), Some("0"));
    let fresh = check.check();
    assert_eq!(fresh.message, "Projection has not processed any events");
    assert_eq!(fresh.metadata.get("error_count").map(String::as_str), Some("0"));
    assert!(fresh.metadata.get("lag_ms").is_none());
}
