use std::sync::Arc;

use eventcore::exporters::{
    Collectors, ExporterConfig, OpenTelemetryExporter, OpenTelemetryExporterBuilder, PrometheusExporter,
    PrometheusMetricsHandler,
};
use eventcore::tracing::TraceContext;

#[test]
fn builder_sets_configuration() {
    let builder = OpenTelemetryExporterBuilder::default()
        .with_endpoint("http://example.com:4317")
        .with_service_name("test-service")
        .with_environment("testing")
        .with_global_label("region", "us-west-2");

    assert_eq!(builder.endpoint, "http://example.com:4317");
    assert_eq!(builder.config.service_name, "test-service");
    assert_eq!(builder.config.environment, "testing");
    assert_eq!(
        builder.config.global_labels,
        vec![("region".to_string(), "us-west-2".to_string())]
    );
}

#[test]
fn builder_configures_exporter() {
    let exporter = PrometheusExporter::builder()
        .with_service_name("test-service")
        .with_environment("testing")
        .with_global_label("datacenter", "us-east-1")
        .build();

    assert_eq!(exporter.config.service_name, "test-service");
    assert_eq!(exporter.config.environment, "testing");
    assert_eq!(
        exporter.config.global_labels,
        vec![("datacenter".to_string(), "us-east-1".to_string())]
    );
}

#[test]
fn default_config_identifies_the_service() {
    let config = ExporterConfig::default();
    assert_eq!(config.service_name, "eventcore-service");
    assert_eq!(config.service_version, "0.1.0");
    assert_eq!(config.environment, "development");
    assert!(config.global_labels.is_empty());

    let builder = OpenTelemetryExporter::builder();
    assert_eq!(builder.endpoint, "http://localhost:4317");
    assert!(builder.headers.is_empty());
}

#[test]
fn builder_collects_headers_and_resource_attributes() {
    let builder = OpenTelemetryExporterBuilder::default()
        .with_header("authorization", "token")
        .with_service_version("2.0.0")
        .with_environment("staging");
    assert_eq!(builder.headers, vec![("authorization".to_string(), "token".to_string())]);
    assert_eq!(
        builder.resource_attributes(),
        vec![
            ("service.name".to_string(), "eventcore-service".to_string()),
            ("service.version".to_string(), "2.0.0".to_string()),
            ("deployment.environment".to_string(), "staging".to_string()),
        ]
    );
}

#[test]
fn otel_attributes_put_labels_between_service_and_global_labels() {
    let config = OpenTelemetryExporterBuilder::default()
        .with_global_label("region", "eu")
        .config;
    let exporter = OpenTelemetryExporter::new(config);
    let attributes = exporter.attributes(&[("operation".to_string(), "read".to_string())]);
    assert_eq!(
        attributes,
        vec![
            ("service.name".to_string(), "eventcore-service".to_string()),
            ("service.version".to_string(), "0.1.0".to_string()),
            ("environment".to_string(), "development".to_string()),
            ("operation".to_string(), "read".to_string()),
            ("region".to_string(), "eu".to_string()),
        ]
    );
    assert_eq!(OpenTelemetryExporter::instrument_name("commands"), "eventcore.commands");
}

#[test]
fn span_record_reports_root_span_without_parent() {
    let exporter = OpenTelemetryExporter::new(ExporterConfig::default());
    let context = TraceContext::new("load");
    let record = exporter.span_record(&context, 2_500_000);
    assert_eq!(record.message, "Trace span exported");
    assert_eq!(record.fields[2], ("parent_span_id".to_string(), "none".to_string()));
    assert_eq!(record.fields[3], ("operation".to_string(), "load".to_string()));
    assert_eq!(record.fields[4], ("duration_ms".to_string(), "2".to_string()));
}

#[test]
fn prometheus_labels_and_names() {
    let exporter = PrometheusExporter::builder().with_service_version("1.2.3").build();
    let labels = [("operation".to_string(), "read".to_string())];
    assert_eq!(PrometheusExporter::metric_name("test_counter"), "eventcore_test_counter");
    assert_eq!(
        PrometheusExporter::label_names(&labels),
        vec!["service_name", "service_version", "environment", "operation"]
    );
    assert_eq!(
        exporter.label_values(&labels),
        vec!["eventcore-service", "1.2.3", "development", "read"]
    );
}

#[test]
fn global_labels_override_given_labels() {
    let exporter = PrometheusExporter::builder()
        .with_global_label("environment", "override")
        .build();
    let values = exporter.build_label_values(&[("environment".to_string(), "given".to_string())]);
    assert_eq!(values.get("environment"), Some(&"override".to_string()));
    assert_eq!(values.get("service_name"), Some(&"eventcore-service".to_string()));
    assert_eq!(values.len(), 3);
}

#[test]
fn empty_registry_gathers_to_empty_text() {
    let exporter = PrometheusExporter::new();
    assert_eq!(exporter.gather().expect("gather"), "");
    let handler = PrometheusMetricsHandler::new(Arc::new(exporter));
    assert_eq!(handler.handle().expect("handle"), "");
}

#[test]
fn collectors_start_empty_and_keep_one_per_name() {
    let mut collectors: Collectors<u32> = Collectors::new();
    assert!(collectors.get("eventcore_requests").is_none());
    collectors.insert("eventcore_requests".to_string(), 1);
    collectors.insert("eventcore_errors".to_string(), 2);
    collectors.insert("eventcore_requests".to_string(), 3);
    assert_eq!(collectors.get("eventcore_requests"), Some(&3));
    assert_eq!(collectors.get("eventcore_errors"), Some(&2));
}
