use eventcore::bridge::{
    export_command_metrics, export_event_store_metrics, export_projection_metrics, MetricKind, MetricSample,
};
use eventcore::errors::CommandError;
use eventcore::metrics::{CommandMetrics, EventStoreMetrics, MetricsRegistry, ProjectionMetrics};

const MILLI: u64 = 1_000_000;

fn find<'a>(samples: &'a [MetricSample], name: &str) -> Vec<&'a MetricSample> {
    samples.iter().filter(|s| s.name == name).collect()
}

fn labels(s: &MetricSample) -> Vec<(&str, &str)> {
    s.labels.iter().map(|(k, v)| (k.as_str(), v.as_str())).collect()
}

#[test]
fn exports_metrics_to_registry() {
    let mut metrics_registry = MetricsRegistry::new();
    metrics_registry.command_metrics.commands_executed.increment();
    metrics_registry.command_metrics.commands_succeeded.increment();
    metrics_registry.event_store_metrics.events_written.increment_by(10);

    let commands = export_command_metrics(&metrics_registry.command_metrics);
    let store = export_event_store_metrics(&metrics_registry.event_store_metrics);

    assert_eq!(find(&commands, "commands.executed")[0].value, 1);
    assert_eq!(find(&commands, "commands.succeeded")[0].value, 1);
    assert_eq!(find(&store, "events.written")[0].value, 10);
    assert_eq!(metrics_registry.command_metrics.commands_executed.get(), 1);
    assert_eq!(metrics_registry.command_metrics.commands_succeeded.get(), 1);
    assert_eq!(metrics_registry.event_store_metrics.events_written.get(), 10);
}

#[test]
fn command_samples_in_order() {
    let mut m = CommandMetrics::new();
    m.record_command_start("Transfer");
    m.record_command_start("Deposit");
    m.record_command_success(10 * MILLI);
    m.record_command_failure(&CommandError::Timeout(1));

    let samples = export_command_metrics(&m);
    let names: Vec<&str> = samples.iter().map(|s| s.name.as_str()).collect();
    assert_eq!(
        names,
        vec![
            "commands.executed",
            "commands.succeeded",
            "commands.failed",
            "commands.concurrent",
            "command.duration",
            "command.duration",
            "commands.by_type",
            "commands.by_type",
            "command.errors",
        ]
    );
    assert_eq!(samples[3].kind, MetricKind::Gauge);
    assert_eq!(samples[3].value, 0);
    assert_eq!(samples[4].kind, MetricKind::Histogram);
    assert_eq!(samples[4].value, 10_000_000);
    assert_eq!(labels(&samples[4]), vec![("percentile", "p95")]);
    assert_eq!(labels(&samples[5]), vec![("percentile", "p99")]);
    assert_eq!(labels(&samples[6]), vec![("command_type", "Transfer")]);
    assert_eq!(labels(&samples[7]), vec![("command_type", "Deposit")]);
    assert_eq!(labels(&samples[8]), vec![("error_type", "timeout")]);
    assert_eq!(samples[8].value, 1);
}

#[test]
fn no_percentiles_without_durations() {
    let m = EventStoreMetrics::new();
    let samples = export_event_store_metrics(&m);
    assert_eq!(samples.len(), 6);
    assert!(samples.iter().all(|s| s.kind != MetricKind::Histogram));
    assert_eq!(find(&samples, "streams.count")[0].kind, MetricKind::Gauge);
}

#[test]
fn projection_lag_is_exported_per_projection() {
    let mut m = ProjectionMetrics::new();
    m.update_projection_lag("orders", 250 * MILLI);
    m.update_projection_lag("balances", 5 * MILLI);
    m.record_event_processed("orders", eventcore::types::EventId::from_u128(1), 3 * MILLI);
    m.set_active_projections(2);
    let samples = export_projection_metrics(&m);
    let lags = find(&samples, "projection.lag_ms");
    assert_eq!(lags.len(), 2);
    assert_eq!(lags[0].value, 250);
    assert_eq!(labels(lags[0]), vec![("projection", "orders")]);
    assert_eq!(lags[1].value, 5);
    assert_eq!(find(&samples, "projections.active")[0].value, 2);
    assert_eq!(find(&samples, "projection.processing_duration")[0].value, 3_000_000);
}
