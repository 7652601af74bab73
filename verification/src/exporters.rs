//! Exporting metrics and spans to monitoring systems: the settings shared by
//! the exporters, the names and labels they attach to each metric, and the
//! Prometheus registry the metrics are gathered from.

use std::sync::Arc;
use vstd::prelude::*;

use crate::assoc::assoc_map;
use crate::health::{checks_after_register, names_after_register, names_distinct};
use crate::logging::LogLevel;
use crate::metadata::Metadata;
use crate::text::decimal_string;
use crate::tracing::{field_texts, millis_text, push_field, record, TraceContext, TraceRecord};

verus! {

#[verifier::external_type_specification]
#[verifier::external_body]
pub struct ExRegistry(prometheus::Registry);

#[verifier::external_type_specification]
#[verifier::external_body]
pub struct ExMetricFamily(prometheus::proto::MetricFamily);

#[verifier::external_type_specification]
#[verifier::external_body]
pub struct ExPrometheusError(prometheus::Error);

/// The version reported for the service when none is configured.
pub const DEFAULT_SERVICE_VERSION: &'static str = "0.1.0";

/// Settings shared by the exporters: how the service is identified, and
/// labels attached to every metric.
#[derive(Debug, Clone)]
pub struct ExporterConfig {
    /// Name of the service.
    pub service_name: String,
    /// Version of the service.
    pub service_version: String,
    /// Deployment environment, such as production or staging.
    pub environment: String,
    /// Labels attached to every metric, in the order they were added.
    pub global_labels: Vec<(String, String)>,
}

/// Whether `c` holds the default settings.
pub open spec fn is_default_config(c: ExporterConfig) -> bool {
    &&& c.service_name@ == "eventcore-service"@
    &&& c.service_version@ == DEFAULT_SERVICE_VERSION@
    &&& c.environment@ == "development"@
    &&& c.global_labels@.len() == 0
}

impl Default for ExporterConfig {
    fn default() -> (c: Self)
        ensures
            is_default_config(c),
    {
        ExporterConfig {
            service_name: "eventcore-service".to_owned(),
            service_version: DEFAULT_SERVICE_VERSION.to_owned(),
            environment: "development".to_owned(),
            global_labels: Vec::new(),
        }
    }
}

/// Hands spans to a tracing backend.
pub trait TracingExporter {
    /// Exports the span that `context` describes.
    fn export_span(&self, context: &TraceContext);
}

/// Appends copies of `pairs` to `out`.
fn append_pairs(out: &mut Vec<(String, String)>, pairs: &[(String, String)])
    ensures
        field_texts(final(out)@) == field_texts(old(out)@) + field_texts(pairs@),
{
    let ghost start = field_texts(out@);
    let mut i: usize = 0;
    while i < pairs.len()
        invariant
            i <= pairs@.len(),
            field_texts(out@) == start + field_texts(pairs@).take(i as int),
        decreases pairs@.len() - i,
    {
        let ghost before = field_texts(out@);
        push_field(out, pairs[i].0.as_str(), pairs[i].1.clone());
        proof {
            let all = field_texts(pairs@);
            assert(all[i as int] == (pairs@[i as int].0@, pairs@[i as int].1@));
            assert(all.take(i + 1) =~= all.take(i as int).push(all[i as int]));
        }
        i = i + 1;
    }
    proof {
        assert(field_texts(pairs@).take(pairs@.len() as int) =~= field_texts(pairs@));
    }
}

/// The attributes OpenTelemetry attaches to every instrument: the service's
/// name, version and environment, then the labels given, then the global
/// labels.
pub open spec fn otel_attributes(config: ExporterConfig, labels: Seq<(String, String)>) -> Seq<
    (Seq<char>, Seq<char>),
> {
    seq![
        ("service.name"@, config.service_name@),
        ("service.version"@, config.service_version@),
        ("environment"@, config.environment@),
    ] + field_texts(labels) + field_texts(config.global_labels@)
}

/// The attributes of the OpenTelemetry resource that identifies the service.
pub open spec fn otel_resource(config: ExporterConfig) -> Seq<(Seq<char>, Seq<char>)> {
    seq![
        ("service.name"@, config.service_name@),
        ("service.version"@, config.service_version@),
        ("deployment.environment"@, config.environment@),
    ]
}

/// The fields logged for an exported span: its trace, its span, its parent
/// (`none` for a root), its operation and its duration in milliseconds.
pub open spec fn exported_span_fields(c: TraceContext, nanos: u64) -> Seq<(Seq<char>, Seq<char>)> {
    seq![
        ("trace_id"@, c.trace_id@),
        ("span_id"@, c.span_id@),
        (
            "parent_span_id"@,
            match c.parent_span_id {
                Some(p) => p@,
                None => "none"@,
            },
        ),
        ("operation"@, c.operation_name@),
        ("duration_ms"@, millis_text(nanos)),
    ]
}

/// Exports metrics and spans through OpenTelemetry.
#[derive(Debug)]
pub struct OpenTelemetryExporter {
    /// How the service is identified.
    pub config: ExporterConfig,
}

impl OpenTelemetryExporter {
    /// A builder with the default endpoint and settings.
    pub fn builder() -> (b: OpenTelemetryExporterBuilder)
        ensures
            b.endpoint@ == "http://localhost:4317"@,
            b.headers@.len() == 0,
            is_default_config(b.config),
    {
        OpenTelemetryExporterBuilder::default()
    }

    /// An exporter with `config`.
    pub fn new(config: ExporterConfig) -> (e: Self)
        ensures
            e.config == config,
    {
        OpenTelemetryExporter { config }
    }

    /// The name of the instrument for metric `name`.
    pub fn instrument_name(name: &str) -> (s: String)
        ensures
            s@ == "eventcore."@ + name@,
    {
        "eventcore.".to_owned().concat(name)
    }

    /// The attributes recorded with a measurement that carries `labels`.
    pub fn attributes(&self, labels: &[(String, String)]) -> (v: Vec<(String, String)>)
        ensures
            field_texts(v@) == otel_attributes(self.config, labels@),
    {
        let mut v: Vec<(String, String)> = Vec::new();
        push_field(&mut v, "service.name", self.config.service_name.clone());
        push_field(&mut v, "service.version", self.config.service_version.clone());
        push_field(&mut v, "environment", self.config.environment.clone());
        append_pairs(&mut v, labels);
        append_pairs(&mut v, self.config.global_labels.as_slice());
        proof {
            assert(field_texts(v@) =~= otel_attributes(self.config, labels@));
        }
        v
    }

    /// The record logged when the span of `context` is exported, `nanos`
    /// nanoseconds after it started.
    pub fn span_record(&self, context: &TraceContext, nanos: u64) -> (r: TraceRecord)
        ensures
            r.level == LogLevel::Info,
            r.message@ == "Trace span exported"@,
            field_texts(r.fields@) == exported_span_fields(*context, nanos),
    {
        let mut fields: Vec<(String, String)> = Vec::new();
        push_field(&mut fields, "trace_id", context.trace_id.clone());
        push_field(&mut fields, "span_id", context.span_id.clone());
        let parent = match &context.parent_span_id {
            Some(p) => p.clone(),
            None => "none".to_owned(),
        };
        push_field(&mut fields, "parent_span_id", parent);
        push_field(&mut fields, "operation", context.operation_name.clone());
        push_field(&mut fields, "duration_ms", decimal_string(nanos / 1_000_000));
        proof {
            assert(field_texts(fields@) =~= exported_span_fields(*context, nanos));
        }
        record(LogLevel::Info, "Trace span exported", fields)
    }
}

/// Settings for an OpenTelemetry exporter: the OTLP endpoint, request
/// headers, and how the service is identified.
#[derive(Debug)]
pub struct OpenTelemetryExporterBuilder {
    /// The OTLP endpoint.
    pub endpoint: String,
    /// Headers for OTLP requests, in the order they were added.
    pub headers: Vec<(String, String)>,
    /// How the service is identified.
    pub config: ExporterConfig,
}

impl Default for OpenTelemetryExporterBuilder {
    fn default() -> (b: Self)
        ensures
            b.endpoint@ == "http://localhost:4317"@,
            b.headers@.len() == 0,
            is_default_config(b.config),
    {
        OpenTelemetryExporterBuilder {
            endpoint: "http://localhost:4317".to_owned(),
            headers: Vec::new(),
            config: ExporterConfig::default(),
        }
    }
}

impl OpenTelemetryExporterBuilder {
    /// Sets the OTLP endpoint.
    pub fn with_endpoint(self, endpoint: &str) -> (b: Self)
        ensures
            b.endpoint@ == endpoint@,
            b.headers == self.headers,
            b.config == self.config,
    {
        let mut b = self;
        b.endpoint = endpoint.to_owned();
        b
    }

    /// Adds a header for OTLP requests.
    pub fn with_header(self, key: &str, value: &str) -> (b: Self)
        ensures
            b.endpoint == self.endpoint,
            field_texts(b.headers@) == field_texts(self.headers@).push((key@, value@)),
            b.config == self.config,
    {
        let mut b = self;
        push_field(&mut b.headers, key, value.to_owned());
        b
    }

    /// Sets the service name.
    pub fn with_service_name(self, name: &str) -> (b: Self)
        ensures
            b.endpoint == self.endpoint,
            b.headers == self.headers,
            b.config.service_name@ == name@,
            b.config.service_version == self.config.service_version,
            b.config.environment == self.config.environment,
            b.config.global_labels == self.config.global_labels,
    {
        let mut b = self;
        b.config.service_name = name.to_owned();
        b
    }

    /// Sets the service version.
    pub fn with_service_version(self, version: &str) -> (b: Self)
        ensures
            b.endpoint == self.endpoint,
            b.headers == self.headers,
            b.config.service_name == self.config.service_name,
            b.config.service_version@ == version@,
            b.config.environment == self.config.environment,
            b.config.global_labels == self.config.global_labels,
    {
        let mut b = self;
        b.config.service_version = version.to_owned();
        b
    }

    /// Sets the environment.
    pub fn with_environment(self, env: &str) -> (b: Self)
        ensures
            b.endpoint == self.endpoint,
            b.headers == self.headers,
            b.config.service_name == self.config.service_name,
            b.config.service_version == self.config.service_version,
            b.config.environment@ == env@,
            b.config.global_labels == self.config.global_labels,
    {
        let mut b = self;
        b.config.environment = env.to_owned();
        b
    }

    /// Adds a label attached to every metric.
    pub fn with_global_label(self, key: &str, value: &str) -> (b: Self)
        ensures
            b.endpoint == self.endpoint,
            b.headers == self.headers,
            b.config.service_name == self.config.service_name,
            b.config.service_version == self.config.service_version,
            b.config.environment == self.config.environment,
            field_texts(b.config.global_labels@) == field_texts(self.config.global_labels@).push(
                (key@, value@),
            ),
    {
        let mut b = self;
        push_field(&mut b.config.global_labels, key, value.to_owned());
        b
    }

    /// The attributes of the resource that identifies the service.
    pub fn resource_attributes(&self) -> (v: Vec<(String, String)>)
        ensures
            field_texts(v@) == otel_resource(self.config),
    {
        let mut v: Vec<(String, String)> = Vec::new();
        push_field(&mut v, "service.name", self.config.service_name.clone());
        push_field(&mut v, "service.version", self.config.service_version.clone());
        push_field(&mut v, "deployment.environment", self.config.environment.clone());
        proof {
            assert(field_texts(v@) =~= otel_resource(self.config));
        }
        v
    }
}

/// Why the metrics could not be gathered.
#[derive(Debug)]
pub struct ExportError {
    /// What went wrong.
    pub message: String,
}

/// Calls `prometheus::Registry::new`, which makes a registry with no
/// collectors. A registry is opaque here, so nothing is stated of it.
#[verifier::external_body]
fn new_registry() -> prometheus::Registry {
    prometheus::Registry::new()
}

/// Calls `prometheus::Registry::gather`, which collects the metric families
/// of the registered collectors. What comes back depends on what was
/// registered and recorded before the call, so nothing is stated of it.
#[verifier::external_body]
fn gather_families(registry: &prometheus::Registry) -> Vec<prometheus::proto::MetricFamily> {
    registry.gather()
}

/// Calls `prometheus::TextEncoder::encode_to_string`, which writes the
/// families in the Prometheus text exposition format or reports a family it
/// cannot write. The text depends on the families, which are opaque here,
/// so nothing is stated of it.
#[verifier::external_body]
fn encode_text(families: &[prometheus::proto::MetricFamily]) -> Result<String, prometheus::Error> {
    prometheus::TextEncoder.encode_to_string(families)
}

/// Calls the `Display` implementation of `prometheus::Error`, which describes
/// the error. Nothing is stated of the text.
#[verifier::external_body]
fn prometheus_error_text(e: &prometheus::Error) -> String {
    e.to_string()
}

/// The name under which Prometheus exports metric `name`.
pub open spec fn prometheus_name(name: Seq<char>) -> Seq<char> {
    "eventcore_"@ + name
}

/// The labels Prometheus attaches to a metric that carries labels with
/// `keys`: the service's name, version and environment, then the keys.
pub open spec fn prometheus_label_names(keys: Seq<Seq<char>>) -> Seq<Seq<char>> {
    seq!["service_name"@, "service_version"@, "environment"@] + keys
}

/// The first components of `pairs`.
pub open spec fn pair_keys(pairs: Seq<(String, String)>) -> Seq<Seq<char>> {
    pairs.map_values(|p: (String, String)| p.0@)
}

/// The second components of `pairs`.
pub open spec fn pair_values(pairs: Seq<(String, String)>) -> Seq<Seq<char>> {
    pairs.map_values(|p: (String, String)| p.1@)
}

/// The texts of a list of strings.
pub open spec fn texts(v: Seq<String>) -> Seq<Seq<char>> {
    v.map_values(|s: String| s@)
}

/// The standard labels of a Prometheus metric with their values.
pub open spec fn standard_labels(config: ExporterConfig) -> Seq<(Seq<char>, Seq<char>)> {
    seq![
        ("service_name"@, config.service_name@),
        ("service_version"@, config.service_version@),
        ("environment"@, config.environment@),
    ]
}

/// Appends copies of one component of each of `pairs` to `out`: the keys
/// when `keys` holds, else the values.
fn append_components(out: &mut Vec<String>, pairs: &[(String, String)], keys: bool)
    ensures
        texts(final(out)@) == texts(old(out)@) + if keys {
            pair_keys(pairs@)
        } else {
            pair_values(pairs@)
        },
{
    let ghost start = texts(out@);
    let ghost all = if keys {
        pair_keys(pairs@)
    } else {
        pair_values(pairs@)
    };
    let mut i: usize = 0;
    while i < pairs.len()
        invariant
            i <= pairs@.len(),
            all == (if keys {
                pair_keys(pairs@)
            } else {
                pair_values(pairs@)
            }),
            texts(out@) == start + all.take(i as int),
        decreases pairs@.len() - i,
    {
        let ghost before = out@;
        let s = if keys {
            pairs[i].0.clone()
        } else {
            pairs[i].1.clone()
        };
        out.push(s);
        proof {
            assert(all[i as int] == s@);
            assert(all.take(i + 1) =~= all.take(i as int).push(all[i as int]));
            assert(texts(out@) =~= texts(before).push(s@));
        }
        i = i + 1;
    }
    proof {
        assert(all.take(pairs@.len() as int) =~= all);
    }
}

/// The collectors of one kind that an exporter has created, by metric name:
/// the counters, gauges or histograms it exports to.
#[derive(Debug)]
pub struct Collectors<C> {
    entries: Vec<(String, C)>,
}

impl<C> Collectors<C> {
    /// The metric names that have a collector, in order of creation.
    pub closed spec fn spec_names(&self) -> Seq<Seq<char>> {
        self.entries@.map_values(|e: (String, C)| e.0@)
    }

    /// The collectors, each at the place of its name.
    pub closed spec fn spec_collectors(&self) -> Seq<C> {
        self.entries@.map_values(|e: (String, C)| e.1)
    }

    #[verifier::type_invariant]
    spec fn unique_names(&self) -> bool {
        names_distinct(self.spec_names())
    }

    /// No collectors.
    pub fn new() -> (c: Self)
        ensures
            c.spec_names().len() == 0,
    {
        let c = Collectors { entries: Vec::new() };
        proof {
            assert(c.spec_names().len() == 0);
        }
        c
    }

    /// The collector for the metric `name`, if one was created.
    pub fn get(&self, name: &str) -> (r: Option<&C>)
        ensures
            match r {
                Some(c) => exists|i: int|
                    0 <= i < self.spec_names().len() && self.spec_names()[i] == name@
                        && self.spec_collectors()[i] == *c,
                None => !self.spec_names().contains(name@),
            },
    {
        let k = name.to_owned();
        let mut i: usize = 0;
        while i < self.entries.len()
            invariant
                i <= self.entries@.len(),
                k@ == name@,
                forall|j: int| 0 <= j < i ==> self.spec_names()[j] != name@,
            decreases self.entries@.len() - i,
        {
            if self.entries[i].0 == k {
                proof {
                    assert(self.spec_names()[i as int] == name@);
                    assert(self.spec_collectors()[i as int] == self.entries@[i as int].1);
                }
                return Some(&self.entries[i].1);
            }
            i = i + 1;
        }
        None
    }

    /// Keeps `collector` for the metric `name`, replacing a collector of
    /// that name in its place, or last under a new name.
    pub fn insert(&mut self, name: String, collector: C)
        ensures
            final(self).spec_names() == names_after_register(old(self).spec_names(), name@),
            final(self).spec_collectors() == checks_after_register(
                old(self).spec_names(),
                old(self).spec_collectors(),
                name@,
                collector,
            ),
    {
        proof {
            use_type_invariant(&*self);
        }
        let ghost names = self.spec_names();
        let ghost old_collectors = self.spec_collectors();
        let ghost c = collector;
        let mut found: Option<usize> = None;
        let mut i: usize = 0;
        while i < self.entries.len()
            invariant
                i <= self.entries@.len(),
                names == self.spec_names(),
                found matches Some(k) ==> k < self.entries@.len() && names[k as int] == name@,
                found is None ==> forall|j: int| 0 <= j < i ==> names[j] != name@,
            decreases self.entries@.len() - i,
        {
            if found.is_none() && self.entries[i].0 == name {
                found = Some(i);
            }
            i = i + 1;
        }
        let mut entries: Vec<(String, C)> = Vec::new();
        std::mem::swap(&mut entries, &mut self.entries);
        let ghost before = entries@;
        match found {
            Some(k) => {
                let ghost n = name@;
                entries.set(k, (name, collector));
                proof {
                    assert(names.contains(n));
                    assert forall|j: int| 0 <= j < names.len() && names[j] == n implies j == k by {
                        if j != k {
                            assert(names[j] != names[k as int]);
                        }
                    }
                    assert(names.index_of(n) == k) by {
                        names.index_of_first_ensures(n);
                    }
                    assert forall|j: int| 0 <= j < entries@.len() implies #[trigger] entries@[j].0@ == names[j] by {
                        if j != k {
                            assert(entries@[j] == before[j]);
                        }
                    }
                    assert(entries@.map_values(|e: (String, C)| e.0@) =~= names);
                    assert(entries@.map_values(|e: (String, C)| e.1) =~= old_collectors.update(k as int, c));
                }
            },
            None => {
                let ghost n = name@;
                entries.push((name, collector));
                proof {
                    assert forall|j: int| 0 <= j < entries@.len() implies #[trigger] entries@[j].0@ == names.push(n)[j] by {
                        if j < before.len() {
                            assert(entries@[j] == before[j]);
                        }
                    }
                    assert(entries@.map_values(|e: (String, C)| e.0@) =~= names.push(n));
                    assert(entries@.map_values(|e: (String, C)| e.1) =~= old_collectors.push(c));
                }
            },
        }
        self.entries = entries;
    }
}

/// Exports metrics to a Prometheus registry.
#[derive(Debug)]
pub struct PrometheusExporter {
    /// The registry the metrics are registered with and gathered from.
    pub registry: prometheus::Registry,
    /// How the service is identified.
    pub config: ExporterConfig,
}

impl PrometheusExporter {
    /// An exporter with an empty registry of its own and the default
    /// settings.
    pub fn new() -> (e: Self)
        ensures
            is_default_config(e.config),
    {
        Self::with_registry(new_registry())
    }

    /// An exporter with `registry` and the default settings.
    pub fn with_registry(registry: prometheus::Registry) -> (e: Self)
        ensures
            e.registry == registry,
            is_default_config(e.config),
    {
        PrometheusExporter { registry, config: ExporterConfig::default() }
    }

    /// A builder with no registry and the default settings.
    pub fn builder() -> (b: PrometheusExporterBuilder)
        ensures
            b.registry.is_none(),
            is_default_config(b.config),
    {
        PrometheusExporterBuilder::default()
    }

    /// All metrics of the registry in the Prometheus text format, or why
    /// they could not be written.
    pub fn gather(&self) -> Result<String, ExportError> {
        let families = gather_families(&self.registry);
        match encode_text(families.as_slice()) {
            Ok(text) => Ok(text),
            Err(e) => Err(ExportError { message: prometheus_error_text(&e) }),
        }
    }

    /// The registry the metrics are gathered from.
    pub fn registry(&self) -> (r: &prometheus::Registry)
        ensures
            *r == self.registry,
    {
        &self.registry
    }

    /// The name under which metric `name` is exported.
    pub fn metric_name(name: &str) -> (s: String)
        ensures
            s@ == prometheus_name(name@),
    {
        "eventcore_".to_owned().concat(name)
    }

    /// The label names of a metric that carries `labels`.
    pub fn label_names(labels: &[(String, String)]) -> (v: Vec<String>)
        ensures
            texts(v@) == prometheus_label_names(pair_keys(labels@)),
    {
        let mut v: Vec<String> = Vec::new();
        v.push("service_name".to_owned());
        v.push("service_version".to_owned());
        v.push("environment".to_owned());
        proof {
            assert(texts(v@) =~= seq!["service_name"@, "service_version"@, "environment"@]);
        }
        append_components(&mut v, labels, true);
        v
    }

    /// The label values of a measurement that carries `labels`, in the
    /// order of [`PrometheusExporter::label_names`].
    pub fn label_values(&self, labels: &[(String, String)]) -> (v: Vec<String>)
        ensures
            texts(v@) == seq![self.config.service_name@, self.config.service_version@, self.config.environment@]
                + pair_values(labels@),
    {
        let mut v: Vec<String> = Vec::new();
        v.push(self.config.service_name.clone());
        v.push(self.config.service_version.clone());
        v.push(self.config.environment.clone());
        proof {
            assert(texts(v@) =~= seq![
                self.config.service_name@,
                self.config.service_version@,
                self.config.environment@,
            ]);
        }
        append_components(&mut v, labels, false);
        v
    }

    /// Every label of a measurement that carries `labels`, with its value:
    /// the standard labels, then `labels`, then the global labels, a later
    /// one replacing an earlier one with the same name.
    pub fn build_label_values(&self, labels: &[(String, String)]) -> (m: Metadata)
        ensures
            m@ == assoc_map(
                standard_labels(self.config) + field_texts(labels@) + field_texts(self.config.global_labels@),
            ),
    {
        let mut standard: Vec<(String, String)> = Vec::new();
        push_field(&mut standard, "service_name", self.config.service_name.clone());
        push_field(&mut standard, "service_version", self.config.service_version.clone());
        push_field(&mut standard, "environment", self.config.environment.clone());
        let mut m = Metadata::new();
        proof {
            assert(field_texts(standard@) =~= standard_labels(self.config));
            assert(Seq::<(Seq<char>, Seq<char>)>::empty() + field_texts(standard@) =~= standard_labels(
                self.config,
            ));
            assert(assoc_map(Seq::<(Seq<char>, Seq<char>)>::empty()) == Map::<Seq<char>, Seq<char>>::empty());
        }
        insert_all(&mut m, standard.as_slice(), Ghost(Seq::empty()));
        insert_all(&mut m, labels, Ghost(standard_labels(self.config)));
        insert_all(
            &mut m,
            self.config.global_labels.as_slice(),
            Ghost(standard_labels(self.config) + field_texts(labels@)),
        );
        m
    }
}

/// Sets each of `pairs` in `m`, in order.
fn insert_all(m: &mut Metadata, pairs: &[(String, String)], Ghost(done): Ghost<Seq<(Seq<char>, Seq<char>)>>)
    requires
        old(m)@ == assoc_map(done),
    ensures
        final(m)@ == assoc_map(done + field_texts(pairs@)),
{
    let mut i: usize = 0;
    while i < pairs.len()
        invariant
            i <= pairs@.len(),
            m@ == assoc_map(done + field_texts(pairs@).take(i as int)),
        decreases pairs@.len() - i,
    {
        m.insert(pairs[i].0.clone(), pairs[i].1.clone());
        proof {
            let all = field_texts(pairs@);
            let next = done + all.take(i + 1);
            assert(all[i as int] == (pairs@[i as int].0@, pairs@[i as int].1@));
            assert(next.drop_last() =~= done + all.take(i as int));
            assert(next.last() == all[i as int]);
        }
        i = i + 1;
    }
    proof {
        assert(field_texts(pairs@).take(pairs@.len() as int) =~= field_texts(pairs@));
    }
}

/// Settings for a Prometheus exporter.
#[derive(Debug)]
pub struct PrometheusExporterBuilder {
    /// The registry to use; a new one when none is given.
    pub registry: Option<prometheus::Registry>,
    /// How the service is identified.
    pub config: ExporterConfig,
}

impl Default for PrometheusExporterBuilder {
    fn default() -> (b: Self)
        ensures
            b.registry.is_none(),
            is_default_config(b.config),
    {
        PrometheusExporterBuilder { registry: None, config: ExporterConfig::default() }
    }
}

impl PrometheusExporterBuilder {
    /// Uses `registry`.
    pub fn with_registry(self, registry: prometheus::Registry) -> (b: Self)
        ensures
            b.registry == Some(registry),
            b.config == self.config,
    {
        PrometheusExporterBuilder { registry: Some(registry), config: self.config }
    }

    /// Sets the service name.
    pub fn with_service_name(self, name: &str) -> (b: Self)
        ensures
            b.registry == self.registry,
            b.config.service_name@ == name@,
            b.config.service_version == self.config.service_version,
            b.config.environment == self.config.environment,
            b.config.global_labels == self.config.global_labels,
    {
        let mut b = self;
        b.config.service_name = name.to_owned();
        b
    }

    /// Sets the service version.
    pub fn with_service_version(self, version: &str) -> (b: Self)
        ensures
            b.registry == self.registry,
            b.config.service_name == self.config.service_name,
            b.config.service_version@ == version@,
            b.config.environment == self.config.environment,
            b.config.global_labels == self.config.global_labels,
    {
        let mut b = self;
        b.config.service_version = version.to_owned();
        b
    }

    /// Sets the environment.
    pub fn with_environment(self, env: &str) -> (b: Self)
        ensures
            b.registry == self.registry,
            b.config.service_name == self.config.service_name,
            b.config.service_version == self.config.service_version,
            b.config.environment@ == env@,
            b.config.global_labels == self.config.global_labels,
    {
        let mut b = self;
        b.config.environment = env.to_owned();
        b
    }

    /// Adds a label attached to every metric.
    pub fn with_global_label(self, key: &str, value: &str) -> (b: Self)
        ensures
            b.registry == self.registry,
            b.config.service_name == self.config.service_name,
            b.config.service_version == self.config.service_version,
            b.config.environment == self.config.environment,
            field_texts(b.config.global_labels@) == field_texts(self.config.global_labels@).push(
                (key@, value@),
            ),
    {
        let mut b = self;
        push_field(&mut b.config.global_labels, key, value.to_owned());
        b
    }

    /// The exporter: with the registry given, or a new one, and these
    /// settings.
    pub fn build(self) -> (e: PrometheusExporter)
        ensures
            self.registry matches Some(r) ==> e.registry == r,
            e.config == self.config,
    {
        let registry = match self.registry {
            Some(r) => r,
            None => new_registry(),
        };
        PrometheusExporter { registry, config: self.config }
    }
}

/// Serves the metrics of an exporter, for an HTTP endpoint.
#[derive(Debug)]
pub struct PrometheusMetricsHandler {
    /// The exporter whose metrics are served.
    pub exporter: Arc<PrometheusExporter>,
}

impl PrometheusMetricsHandler {
    /// A handler for `exporter`.
    pub fn new(exporter: Arc<PrometheusExporter>) -> (h: Self)
        ensures
            h.exporter == exporter,
    {
        PrometheusMetricsHandler { exporter }
    }

    /// The response body for a metrics request: the exporter's metrics in
    /// the text format, or why they could not be written.
    pub fn handle(&self) -> Result<String, ExportError> {
        self.exporter.gather()
    }
}

} // verus!
