use eventcore::logging::LogLevel;
use eventcore::tracing::{
    command_span, event_store_span, extract_trace_context, projection_span, CommandTracer, EventStoreTracer,
    ProjectionTracer, SpanGuard, TraceContext,
};
use eventcore::types::{EventId, StreamId};

fn field<'a>(fields: &'a [(String, String)], key: &str) -> Option<&'a str> {
    fields.iter().find(|(k, _)| k == key).map(|(_, v)| v.as_str())
}

#[test]
fn test_trace_context_creation() {
    let context = TraceContext::new("test_operation");
    assert_eq!(context.operation_name, "test_operation");
    assert!(context.parent_span_id.is_none());
    assert!(!context.trace_id.is_empty());
    assert!(!context.span_id.is_empty());
}

#[test]
fn test_child_context_creation() {
    let parent = TraceContext::new("parent_operation");
    let child = parent.child("child_operation");

    assert_eq!(child.operation_name, "child_operation");
    assert_eq!(child.trace_id, parent.trace_id);
    assert_eq!(child.parent_span_id, Some(parent.span_id.clone()));
    assert_ne!(child.span_id, parent.span_id);
}

#[test]
fn test_metadata_addition() {
    let context = TraceContext::new("test_operation")
        .with_metadata("key1", "value1")
        .with_metadata("key2", "value2");

    assert_eq!(context.metadata.get("key1"), Some(&"value1".to_string()));
    assert_eq!(context.metadata.get("key2"), Some(&"value2".to_string()));
}

#[test]
fn test_command_tracer() {
    let stream_ids = vec![
        StreamId::try_new("stream-1").unwrap(),
        StreamId::try_new("stream-2").unwrap(),
    ];

    let mut tracer = CommandTracer::new("TestCommand", stream_ids);
    assert_eq!(tracer.command_type, "TestCommand");
    assert_eq!(tracer.retry_count, 0);

    let retry = tracer.record_retry();
    assert_eq!(tracer.retry_count, 1);
    assert_eq!(retry.level, LogLevel::Warn);

    let done = tracer.record_completion(true, 3);
    assert_eq!(done.level, LogLevel::Info);
    assert_eq!(field(&done.fields, "events_written"), Some("3"));
    assert_eq!(field(&done.fields, "stream_count"), Some("2"));
}

#[test]
fn test_event_store_tracer() {
    let stream_ids = vec![StreamId::try_new("stream-1").unwrap()];

    let tracer = EventStoreTracer::new("read", stream_ids);
    assert_eq!(tracer.operation_type, "read");

    let start = tracer.record_start();
    assert_eq!(field(&start.fields, "stream_ids"), Some("[stream-1]"));
    let done = tracer.record_completion(true, 5);
    assert_eq!(done.level, LogLevel::Debug);
    assert_eq!(field(&done.fields, "event_count"), Some("5"));
}

#[test]
fn test_projection_tracer() {
    let event_id = EventId::new();
    let tracer = ProjectionTracer::new("TestProjection", Some(event_id));

    assert_eq!(tracer.projection_name, "TestProjection");
    assert_eq!(tracer.event_id, Some(event_id));

    let start = tracer.record_start();
    assert_eq!(field(&start.fields, "event_id"), Some(event_id.to_text().as_str()));
    let done = tracer.record_completion(true, 1);
    assert_eq!(done.message, "Projection processing completed successfully");
    let lag = tracer.record_lag(100_000_000);
    assert_eq!(lag.level, LogLevel::Debug);
    assert_eq!(field(&lag.fields, "lag_ms"), Some("100"));
}

#[test]
fn test_span_guard() {
    let context = TraceContext::new("test_operation");
    let guard = SpanGuard::new(context, "test_span");

    let started = guard.started();
    assert_eq!(started.message, "Operation started");
    let record = guard.success();
    assert_eq!(record.level, LogLevel::Info);
    assert_eq!(field(&record.fields, "operation"), Some("test_span"));
}

#[test]
fn test_span_guard_failure() {
    let context = TraceContext::new("test_operation");
    let guard = SpanGuard::new(context, "test_span");

    let record = guard.failure("Test error message");
    assert_eq!(record.level, LogLevel::Error);
    assert_eq!(field(&record.fields, "error"), Some("Test error message"));
}

#[test]
fn projection_lag_beyond_thirty_seconds_warns() {
    let tracer = ProjectionTracer::new("p", None);
    let record = tracer.record_lag(30_000_000_001);
    assert_eq!(record.level, LogLevel::Warn);
    assert_eq!(record.message, "High projection lag detected");
    let at_limit = tracer.record_lag(30_000_000_000);
    assert_eq!(at_limit.level, LogLevel::Debug);
    assert!(field(&tracer.record_start().fields, "event_id").is_none());
}

#[test]
fn span_fields_list_context_then_metadata() {
    let context = TraceContext::new("op").with_metadata("tenant", "acme");
    let fields = context.create_span();
    assert_eq!(fields.len(), 5);
    assert_eq!(fields[2], ("parent_span_id".to_string(), "none".to_string()));
    assert_eq!(fields[3], ("operation".to_string(), "op".to_string()));
    assert_eq!(fields[4], ("tenant".to_string(), "acme".to_string()));
    let child = context.child("inner").create_span();
    assert_eq!(child[2].1, context.span_id);
}

#[test]
fn span_helpers_record_their_metadata() {
    let command = command_span("Deposit", Some("corr-1"));
    assert_eq!(command.operation_name, "command_execution");
    assert_eq!(command.metadata.get("correlation_id"), Some(&"corr-1".to_string()));
    assert!(command_span("Deposit", None).metadata.get("correlation_id").is_none());

    let streams = vec![StreamId::try_new("a").unwrap(), StreamId::try_new("b").unwrap()];
    let store = event_store_span("write", &streams);
    assert_eq!(store.metadata.get("stream_count"), Some(&"2".to_string()));

    let id = EventId::from_u128(1);
    let projection = projection_span("orders", &id);
    assert_eq!(projection.metadata.get("event_id"), Some(&"00000000-0000-0000-0000-000000000001".to_string()));

    assert_eq!(extract_trace_context().unwrap().len(), 36);
}

#[test]
fn command_child_span_records_retries() {
    let mut tracer = CommandTracer::new("Transfer", vec![]);
    tracer.record_retry();
    tracer.record_retry();
    let child = tracer.child_span("load");
    assert_eq!(child.trace_id, tracer.context.trace_id);
    assert_eq!(child.metadata.get("retry_count"), Some(&"2".to_string()));
    assert_eq!(child.metadata.get("command_type"), Some(&"Transfer".to_string()));
    let failed = tracer.record_completion(false, 0);
    assert_eq!(failed.level, LogLevel::Error);
    assert!(field(&failed.fields, "events_written").is_none());
}
