use eventcore::errors::CommandError;
use eventcore::metrics::{CommandMetrics, Counter, EventStoreMetrics, MetricsRegistry, ProjectionMetrics, Timer};
use eventcore::types::{EventId, EventStoreError, StreamId};

const MILLI: u64 = 1_000_000;

#[test]
fn counter_increments_correctly() {
    let mut counter = Counter::new();
    assert_eq!(counter.get(), 0);

    counter.increment();
    assert_eq!(counter.get(), 1);

    counter.increment_by(5);
    assert_eq!(counter.get(), 6);

    counter.reset();
    assert_eq!(counter.get(), 0);
}

#[test]
fn counter_wraps_on_overflow() {
    let mut counter = Counter::new();
    counter.increment_by(u64::MAX);
    counter.increment();
    assert_eq!(counter.get(), 0);
}

#[test]
fn timer_records_durations() {
    let mut timer = Timer::new();

    timer.record(100 * MILLI);
    timer.record(200 * MILLI);
    timer.record(300 * MILLI);

    let samples = timer.get_samples();
    assert_eq!(samples.len(), 3);
    assert_eq!(samples[0], 100 * MILLI);
    assert_eq!(samples[1], 200 * MILLI);
    assert_eq!(samples[2], 300 * MILLI);

    let mean = timer.mean().unwrap();
    assert_eq!(mean, 200 * MILLI);
}

#[test]
fn timer_calculates_percentiles() {
    let mut timer = Timer::new();

    for i in 1..=100u64 {
        timer.record(i * MILLI);
    }

    let p95 = timer.p95().unwrap() / MILLI;
    let p99 = timer.p99().unwrap() / MILLI;

    assert!(p95 >= 94 && p95 <= 96);
    assert!(p99 >= 98 && p99 <= 100);
}

#[test]
fn timer_percentiles_exact_values() {
    let mut timer = Timer::new();
    for i in (1..=100u64).rev() {
        timer.record(i);
    }
    assert_eq!(timer.p95(), Some(95));
    assert_eq!(timer.p99(), Some(99));

    let mut eleven = Timer::new();
    for i in 0..11u64 {
        eleven.record(i * 10);
    }
    // rank (10 * 95) / 100 = 9.5 rounds up to 10
    assert_eq!(eleven.p95(), Some(100));

    let empty = Timer::new();
    assert_eq!(empty.p95(), None);
    assert_eq!(empty.mean(), None);
}

#[test]
fn timer_limits_sample_count() {
    let mut timer = Timer::new();

    for i in 1..=1500u64 {
        timer.record(i * MILLI);
    }

    let samples = timer.get_samples();
    assert_eq!(samples.len(), 1000);

    assert_eq!(samples[0], 501 * MILLI);
    assert_eq!(samples[999], 1500 * MILLI);
}

#[test]
fn timer_times_a_closure() {
    let mut timer = Timer::new();
    let value = timer.time(|| 41 + 1);
    assert_eq!(value, 42);
    assert_eq!(timer.get_samples().len(), 1);
}

#[test]
fn command_metrics_track_execution() {
    let mut metrics = CommandMetrics::new();

    metrics.record_command_start("TestCommand");
    assert_eq!(metrics.commands_executed.get(), 1);
    assert_eq!(metrics.concurrent_commands, 1);
    assert_eq!(metrics.get_command_count_by_type("TestCommand"), 1);

    metrics.record_command_success(100 * MILLI);
    assert_eq!(metrics.commands_succeeded.get(), 1);
    assert_eq!(metrics.concurrent_commands, 0);

    let error = CommandError::ValidationFailed("test".to_string());
    metrics.record_command_failure(&error);
    assert_eq!(metrics.commands_failed.get(), 1);
    assert_eq!(metrics.get_error_count_by_type("validation_failed"), 1);
}

#[test]
fn event_store_metrics_track_operations() {
    let mut metrics = EventStoreMetrics::new();
    let stream_id = StreamId::try_new("test-stream").unwrap();

    metrics.record_read_start(&[stream_id.clone()]);
    assert_eq!(metrics.reads_total.get(), 1);
    assert_eq!(metrics.concurrent_operations, 1);
    assert_eq!(metrics.get_operations_for_stream(&stream_id), 1);

    metrics.record_read_complete(5, 50 * MILLI);
    assert_eq!(metrics.events_read.get(), 5);
    assert_eq!(metrics.concurrent_operations, 0);

    metrics.record_write_start(&[stream_id.clone()]);
    metrics.record_write_complete(3, 30 * MILLI);
    assert_eq!(metrics.writes_total.get(), 1);
    assert_eq!(metrics.events_written.get(), 3);
    assert_eq!(metrics.get_operations_for_stream(&stream_id), 2);
}

#[test]
fn projection_metrics_track_processing() {
    let mut metrics = ProjectionMetrics::new();
    let event_id = EventId::new();

    metrics.record_event_processed("TestProjection", event_id, 10 * MILLI);
    assert_eq!(metrics.events_processed.get(), 1);
    assert_eq!(metrics.get_last_processed_event("TestProjection"), Some(event_id));

    metrics.record_event_skipped("TestProjection");
    assert_eq!(metrics.events_skipped.get(), 1);

    metrics.record_projection_error("TestProjection");
    assert_eq!(metrics.projection_errors.get(), 1);

    metrics.update_projection_lag("TestProjection", 500 * MILLI);
    assert_eq!(metrics.get_projection_lag("TestProjection"), 500);

    metrics.record_checkpoint_update("TestProjection");
    assert_eq!(metrics.checkpoint_updates.get(), 1);
}

#[test]
fn metrics_registry_centralizes_all_metrics() {
    let mut registry = MetricsRegistry::new();

    registry.command_metrics.commands_executed.increment();
    registry.event_store_metrics.reads_total.increment();
    registry.projection_metrics.events_processed.increment();

    assert_eq!(registry.command_metrics.commands_executed.get(), 1);
    assert_eq!(registry.event_store_metrics.reads_total.get(), 1);
    assert_eq!(registry.projection_metrics.events_processed.get(), 1);

    registry.reset_all();
    assert_eq!(registry.command_metrics.commands_executed.get(), 0);
    assert_eq!(registry.event_store_metrics.reads_total.get(), 0);
    assert_eq!(registry.projection_metrics.events_processed.get(), 0);
}

#[test]
fn per_name_counts_add_occurrences_and_leave_other_names() {
    let mut metrics = EventStoreMetrics::new();
    let a = StreamId::try_new("account-a").unwrap();
    let b = StreamId::try_new("account-b").unwrap();
    let c = StreamId::try_new("account-c").unwrap();

    metrics.record_read_start(&[a.clone(), b.clone(), a.clone()]);
    metrics.record_write_start(&[a.clone()]);
    assert_eq!(metrics.get_operations_for_stream(&a), 3);
    assert_eq!(metrics.get_operations_for_stream(&b), 1);
    assert_eq!(metrics.get_operations_for_stream(&c), 0);
    assert_eq!(metrics.concurrent_operations, 2);
}

#[test]
fn command_failures_are_counted_by_category() {
    let mut metrics = CommandMetrics::new();
    metrics.record_command_start("Transfer");
    metrics.record_command_start("Transfer");
    metrics.record_command_start("Deposit");
    metrics.record_command_failure(&CommandError::Timeout(5000));
    metrics.record_command_failure(&CommandError::EventStore(EventStoreError::VersionConflict));
    metrics.record_command_failure(&CommandError::Timeout(10));

    assert_eq!(metrics.get_command_count_by_type("Transfer"), 2);
    assert_eq!(metrics.get_command_count_by_type("Deposit"), 1);
    assert_eq!(metrics.get_command_count_by_type("Withdraw"), 0);
    assert_eq!(metrics.get_error_count_by_type("timeout"), 2);
    assert_eq!(metrics.get_error_count_by_type("event_store_error"), 1);
    assert_eq!(metrics.commands_failed.get(), 3);
    assert_eq!(metrics.concurrent_commands, 0);
}

#[test]
fn reset_keeps_per_name_counts_and_durations() {
    let mut registry = MetricsRegistry::new();
    registry.command_metrics.record_command_start("Transfer");
    registry.command_metrics.record_command_success(7 * MILLI);
    registry.reset_all();
    assert_eq!(registry.command_metrics.commands_executed.get(), 0);
    assert_eq!(registry.command_metrics.commands_succeeded.get(), 0);
    assert_eq!(registry.command_metrics.get_command_count_by_type("Transfer"), 1);
    assert_eq!(registry.command_metrics.command_duration.get_samples(), vec![7 * MILLI]);
}

#[test]
fn projection_lag_is_kept_in_whole_milliseconds() {
    let mut metrics = ProjectionMetrics::new();
    assert_eq!(metrics.get_projection_lag("Orders"), 0);
    assert_eq!(metrics.get_last_processed_event("Orders"), None);
    metrics.update_projection_lag("Orders", 1_999_999);
    assert_eq!(metrics.get_projection_lag("Orders"), 1);
    metrics.update_projection_lag("Orders", 3 * MILLI);
    assert_eq!(metrics.get_projection_lag("Orders"), 3);
    metrics.set_active_projections(4);
    assert_eq!(metrics.active_projections, 4);
}

#[test]
fn percentiles_past_the_last_sample_are_absent() {
    let mut timer = Timer::new();
    for i in 1..=10u64 {
        timer.record(i);
    }
    assert_eq!(timer.percentile(100), Some(10));
    assert_eq!(timer.percentile(200), None);
    assert_eq!(timer.percentile(0), Some(1));
    let mut one = Timer::new();
    one.record(7);
    assert_eq!(one.percentile(500), Some(7));
}
