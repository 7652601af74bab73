use eventcore::errors::CommandError;
use eventcore::json::JsonValue;
use eventcore::logging::loggers;
use eventcore::logging::{LogEntry, LogLevel, LoggingConfig, StructuredLogger};
use eventcore::types::{EventId, EventStoreError, StreamId};

const MILLI: u64 = 1_000_000;

fn text(s: &str) -> JsonValue {
    JsonValue::String(s.to_string())
}

fn number(s: &str) -> JsonValue {
    JsonValue::Number(s.to_string())
}

fn member<'a>(value: &'a JsonValue, name: &str) -> Option<&'a JsonValue> {
    match value {
        JsonValue::Object(members) => members.iter().rev().find(|(k, _)| k == name).map(|(_, v)| v),
        _ => None,
    }
}

#[test]
fn test_log_entry_creation() {
    let entry = LogEntry::new(LogLevel::Info, "Test message", "test_component", "test_operation");

    assert_eq!(entry.level, LogLevel::Info);
    assert_eq!(entry.message, "Test message");
    assert_eq!(entry.component, "test_component");
    assert_eq!(entry.operation, "test_operation");
    assert!(entry.trace_id.is_none());
    assert!(entry.error.is_none());
    assert!(entry.duration_ms.is_none());
}

#[test]
fn test_log_entry_with_fields() {
    let entry = LogEntry::new(LogLevel::Info, "Test message", "test_component", "test_operation")
        .with_trace_id("trace-123".to_string())
        .with_field("key1", text("value1"))
        .with_field("key2", number("42"))
        .with_error("Test error")
        .with_duration(100 * MILLI);

    assert_eq!(entry.trace_id, Some("trace-123".to_string()));
    assert_eq!(entry.fields.get("key1"), Some(&text("value1")));
    assert_eq!(entry.fields.get("key2"), Some(&number("42")));
    assert_eq!(entry.error, Some("Test error".to_string()));
    assert_eq!(entry.duration_ms, Some(100));
}

#[test]
fn test_log_entry_json_serialization() {
    let entry = LogEntry::new(LogLevel::Info, "Test message", "test_component", "test_operation")
        .with_trace_id("trace-123".to_string())
        .with_field("key1", text("value1"));

    let json_value = entry.to_json();

    assert_eq!(member(&json_value, "level"), Some(&text("info")));
    assert_eq!(member(&json_value, "message"), Some(&text("Test message")));
    assert_eq!(member(&json_value, "component"), Some(&text("test_component")));
    assert_eq!(member(&json_value, "operation"), Some(&text("test_operation")));
    assert_eq!(member(&json_value, "trace_id"), Some(&text("trace-123")));
    let fields = member(&json_value, "fields").unwrap();
    assert_eq!(member(fields, "key1"), Some(&text("value1")));
}

#[test]
fn test_structured_logger_creation() {
    let logger = StructuredLogger::new("test_component").with_default_field("default_key", text("default_value"));

    assert_eq!(logger.component, "test_component");
    assert_eq!(logger.default_fields.get("default_key"), Some(&text("default_value")));
}

#[test]
fn test_structured_logger_methods() {
    let logger = StructuredLogger::new("test_component");

    assert_eq!(logger.trace("test_operation", "Trace message").level, LogLevel::Trace);
    assert_eq!(logger.debug("test_operation", "Debug message").level, LogLevel::Debug);
    assert_eq!(logger.info("test_operation", "Info message").level, LogLevel::Info);
    assert_eq!(logger.warn("test_operation", "Warn message").level, LogLevel::Warn);
    assert_eq!(logger.error("test_operation", "Error message").level, LogLevel::Error);
}

#[test]
fn test_command_error_classification() {
    let error = CommandError::ValidationFailed("Test validation error".to_string());
    let classification = StructuredLogger::classify_command_error(&error);
    assert_eq!(classification, "validation_failed");
}

#[test]
fn test_event_store_error_classification() {
    let error = EventStoreError::ConnectionFailed("Test connection error".to_string());
    let classification = StructuredLogger::classify_event_store_error(&error);
    assert_eq!(classification, "connection_failed");
}

#[test]
fn test_logging_config() {
    let config = LoggingConfig::new()
        .with_level(LogLevel::Debug)
        .with_source_location()
        .with_plain_format()
        .with_global_field("service", text("eventcore"));

    assert_eq!(config.level, LogLevel::Debug);
    assert!(config.include_source);
    assert!(!config.json_format);
    assert_eq!(config.global_fields.get("service"), Some(&text("eventcore")));
}

#[test]
fn test_pre_configured_loggers() {
    let cmd_logger = loggers::command_executor();
    let es_logger = loggers::event_store();
    let proj_logger = loggers::projection_manager();
    let sub_logger = loggers::subscription_manager();
    let health_logger = loggers::health_monitor();
    let security_logger = loggers::security();

    assert_eq!(cmd_logger.component, "command_executor");
    assert_eq!(es_logger.component, "event_store");
    assert_eq!(proj_logger.component, "projection_manager");
    assert_eq!(sub_logger.component, "subscription_manager");
    assert_eq!(health_logger.component, "health_monitor");
    assert_eq!(security_logger.component, "security");
}

#[test]
fn default_config_writes_json_at_info() {
    let config = LoggingConfig::default();
    assert_eq!(config.level, LogLevel::Info);
    assert!(!config.include_source);
    assert!(config.json_format);
    assert_eq!(config.global_fields.get("service"), None);
}

#[test]
fn records_carry_the_default_fields() {
    let logger = StructuredLogger::new("billing")
        .with_default_field("region", text("eu"))
        .with_default_field("region", text("us"))
        .with_default_field("shard", number("3"));
    let entry = logger.warn("charge", "Card declined");
    assert_eq!(entry.component, "billing");
    assert_eq!(entry.operation, "charge");
    assert_eq!(entry.message, "Card declined");
    assert_eq!(entry.fields.get("region"), Some(&text("us")));
    assert_eq!(entry.fields.get("shard"), Some(&number("3")));
    assert_eq!(entry.fields.get("missing"), None);
}

#[test]
fn json_of_a_full_record() {
    let entry = LogEntry::new(LogLevel::Error, "Boom", "store", "append")
        .with_error("disk full")
        .with_duration(2_500_000);
    let json_value = entry.to_json();
    assert_eq!(member(&json_value, "level"), Some(&text("error")));
    assert_eq!(member(&json_value, "error"), Some(&text("disk full")));
    assert_eq!(member(&json_value, "duration_ms"), Some(&number("2")));
    assert_eq!(member(&json_value, "trace_id"), None);
    assert_eq!(member(&json_value, "timestamp"), Some(&text(&entry.timestamp)));
    assert!(entry.timestamp.ends_with("+00:00"));
    assert_eq!(member(&json_value, "fields"), Some(&JsonValue::Object(vec![])));
}

#[test]
fn command_start_record() {
    let logger = loggers::command_executor();
    let a = StreamId::try_new("account-1").unwrap();
    let b = StreamId::try_new("account-2").unwrap();
    let entry = logger.log_command_start("trace-9", "Transfer", &[a, b], 2);
    assert_eq!(entry.level, LogLevel::Info);
    assert_eq!(entry.message, "Command execution started");
    assert_eq!(entry.operation, "command_execution");
    assert_eq!(entry.trace_id, Some("trace-9".to_string()));
    assert_eq!(entry.fields.get("command_type"), Some(&text("Transfer")));
    assert_eq!(entry.fields.get("stream_count"), Some(&number("2")));
    assert_eq!(
        entry.fields.get("stream_ids"),
        Some(&JsonValue::Array(vec![text("account-1"), text("account-2")]))
    );
    assert_eq!(entry.fields.get("retry_count"), Some(&number("2")));
}

#[test]
fn command_completion_records() {
    let logger = loggers::command_executor();
    let ok = logger.log_command_completion("t", "Transfer", &Ok(3), 12 * MILLI, 0);
    assert_eq!(ok.level, LogLevel::Info);
    assert_eq!(ok.message, "Command execution completed successfully");
    assert_eq!(ok.fields.get("events_written"), Some(&number("3")));
    assert_eq!(ok.duration_ms, Some(12));
    assert!(ok.error.is_none());

    let err = CommandError::BusinessRuleViolation("insufficient funds".to_string());
    let failed = logger.log_command_completion("t", "Transfer", &Err(err), 5 * MILLI, 1);
    assert_eq!(failed.level, LogLevel::Error);
    assert_eq!(failed.message, "Command execution failed");
    assert_eq!(failed.error, Some("business rule violation: insufficient funds".to_string()));
    assert_eq!(failed.fields.get("error_type"), Some(&text("business_rule_violation")));
    assert_eq!(failed.fields.get("retry_count"), Some(&number("1")));
    assert_eq!(failed.fields.get("events_written"), None);
}

#[test]
fn event_store_records() {
    let logger = loggers::event_store();
    let s = StreamId::try_new("orders").unwrap();
    let start = logger.log_event_store_start("t", "read", &[s]);
    assert_eq!(start.level, LogLevel::Debug);
    assert_eq!(start.message, "Event store read operation started");
    assert_eq!(start.fields.get("operation_type"), Some(&text("read")));

    let done = logger.log_event_store_completion("t", "read", &Ok(7), MILLI);
    assert_eq!(done.level, LogLevel::Debug);
    assert_eq!(done.message, "Event store read operation completed successfully");
    assert_eq!(done.fields.get("event_count"), Some(&number("7")));

    let failed = logger.log_event_store_completion(
        "t",
        "write",
        &Err(EventStoreError::Timeout("after 5s".to_string())),
        MILLI,
    );
    assert_eq!(failed.level, LogLevel::Warn);
    assert_eq!(failed.message, "Event store write operation failed");
    assert_eq!(failed.error, Some("operation timed out: after 5s".to_string()));
    assert_eq!(failed.fields.get("error_type"), Some(&text("timeout")));
}

#[test]
fn projection_processing_records() {
    let logger = loggers::projection_manager();
    let id = EventId::from_u128(0x0123_4567_89ab_cdef_0123_4567_89ab_cdef);
    let ok = logger.log_projection_processing("t", "Balances", &id, &Ok(()), 3 * MILLI);
    assert_eq!(ok.level, LogLevel::Debug);
    assert_eq!(ok.fields.get("event_id"), Some(&text("01234567-89ab-cdef-0123-456789abcdef")));
    assert_eq!(ok.fields.get("projection_name"), Some(&text("Balances")));

    let failed = logger.log_projection_processing("t", "Balances", &id, &Err("bad event".to_string()), 0);
    assert_eq!(failed.level, LogLevel::Warn);
    assert_eq!(failed.message, "Projection processing failed");
    assert_eq!(failed.error, Some("bad event".to_string()));
    assert_eq!(failed.duration_ms, Some(0));
}

#[test]
fn security_event_levels() {
    let logger = loggers::security();
    let denied = logger.log_security_event("login", Some("alice"), "/admin", "read", "denied");
    assert_eq!(denied.level, LogLevel::Warn);
    assert_eq!(denied.message, "Security event: login");
    assert_eq!(denied.fields.get("user_id"), Some(&text("alice")));
    let failed = logger.log_security_event("login", None, "/admin", "read", "failed");
    assert_eq!(failed.level, LogLevel::Warn);
    assert_eq!(failed.fields.get("user_id"), None);
    let granted = logger.log_security_event("login", None, "/admin", "read", "granted");
    assert_eq!(granted.level, LogLevel::Info);
    assert_eq!(granted.fields.get("result"), Some(&text("granted")));
}

#[test]
fn every_error_category() {
    assert_eq!(
        StructuredLogger::classify_command_error(&CommandError::DomainError { message: "x".to_string() }),
        "domain_error"
    );
    assert_eq!(StructuredLogger::classify_command_error(&CommandError::Timeout(1)), "timeout");
    assert_eq!(
        StructuredLogger::classify_event_store_error(&EventStoreError::TransactionRollback("x".to_string())),
        "transaction_rollback"
    );
    assert_eq!(StructuredLogger::classify_event_store_error(&EventStoreError::VersionConflict), "version_conflict");
}
