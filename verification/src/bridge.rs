//! What the metrics bridge exports: the samples that the command, event
//! store and projection metrics yield, by name, value and labels. Sending
//! them to the exporters is left to the caller.

use vstd::prelude::*;

use crate::metrics::{percentile_of, CommandMetrics, EventStoreMetrics, ProjectionMetrics, Timer};
use crate::named::NamedValues;

verus! {

/// The kind of an exported sample.
#[derive(Debug, Clone, Copy, PartialEq, Eq, Structural)]
pub enum MetricKind {
    /// A count that only grows.
    Counter,
    /// A level that goes up and down.
    Gauge,
    /// A duration, in nanoseconds.
    Histogram,
}

/// One sample to export.
#[derive(Debug)]
pub struct MetricSample {
    /// Its kind.
    pub kind: MetricKind,
    /// The metric's name.
    pub name: String,
    /// Its value; a duration in nanoseconds.
    pub value: i128,
    /// Its labels, as pairs of key and value.
    pub labels: Vec<(String, String)>,
}

/// The content of a sample: kind, name, value and labels.
pub type SampleView = (MetricKind, Seq<char>, int, Seq<(Seq<char>, Seq<char>)>);

/// The content of a sample.
pub open spec fn sample_view(s: MetricSample) -> SampleView {
    (s.kind, s.name@, s.value as int, s.labels@.map_values(|l: (String, String)| (l.0@, l.1@)))
}

/// The contents of samples.
pub open spec fn samples_view(s: Seq<MetricSample>) -> Seq<SampleView> {
    s.map_values(|x: MetricSample| sample_view(x))
}

/// A sample without labels.
pub open spec fn plain(kind: MetricKind, name: Seq<char>, value: int) -> SampleView {
    (kind, name, value, Seq::empty())
}

/// The histogram sample of a percentile of `samples`, if there are samples.
pub open spec fn percentile_sample(name: Seq<char>, samples: Seq<u64>, p: nat, label: Seq<char>) -> Seq<SampleView> {
    match percentile_of(samples, p) {
        Some(v) => seq![(MetricKind::Histogram, name, v as int, seq![("percentile"@, label)])],
        None => Seq::empty(),
    }
}

/// One sample per named value, labelled with the name under `key`.
pub open spec fn per_name(
    kind: MetricKind,
    name: Seq<char>,
    key: Seq<char>,
    pairs: Seq<(Seq<char>, u64)>,
) -> Seq<SampleView> {
    pairs.map_values(|p: (Seq<char>, u64)| (kind, name, p.1 as int, seq![(key, p.0)]))
}

/// The samples of command metrics: the totals, the number under way, the
/// 95th and 99th percentile of the durations, then the counts by command
/// type and by error category.
pub open spec fn command_samples(m: CommandMetrics) -> Seq<SampleView> {
    seq![
        plain(MetricKind::Counter, "commands.executed"@, m.commands_executed@ as int),
        plain(MetricKind::Counter, "commands.succeeded"@, m.commands_succeeded@ as int),
        plain(MetricKind::Counter, "commands.failed"@, m.commands_failed@ as int),
        plain(MetricKind::Gauge, "commands.concurrent"@, m.concurrent_commands as int),
    ] + percentile_sample("command.duration"@, m.command_duration@, 95, "p95"@) + percentile_sample(
        "command.duration"@,
        m.command_duration@,
        99,
        "p99"@,
    ) + per_name(MetricKind::Counter, "commands.by_type"@, "command_type"@, m.commands_by_type.spec_pairs())
        + per_name(MetricKind::Counter, "command.errors"@, "error_type"@, m.errors_by_type.spec_pairs())
}

/// The samples of event store metrics: the totals, the levels, and the 95th
/// percentile of read and of write durations.
pub open spec fn event_store_samples(m: EventStoreMetrics) -> Seq<SampleView> {
    seq![
        plain(MetricKind::Counter, "event_store.reads"@, m.reads_total@ as int),
        plain(MetricKind::Counter, "event_store.writes"@, m.writes_total@ as int),
        plain(MetricKind::Counter, "events.written"@, m.events_written@ as int),
        plain(MetricKind::Counter, "events.read"@, m.events_read@ as int),
        plain(MetricKind::Gauge, "event_store.concurrent_operations"@, m.concurrent_operations as int),
        plain(MetricKind::Gauge, "streams.count"@, m.stream_count as int),
    ] + percentile_sample("event_store.read_duration"@, m.read_duration@, 95, "p95"@) + percentile_sample(
        "event_store.write_duration"@,
        m.write_duration@,
        95,
        "p95"@,
    )
}

/// The samples of projection metrics: the totals, the number of active
/// projections, the 95th percentile of processing durations, then the lag
/// of each projection in milliseconds.
pub open spec fn projection_samples(m: ProjectionMetrics) -> Seq<SampleView> {
    seq![
        plain(MetricKind::Counter, "projections.events_processed"@, m.events_processed@ as int),
        plain(MetricKind::Counter, "projections.events_skipped"@, m.events_skipped@ as int),
        plain(MetricKind::Counter, "projections.errors"@, m.projection_errors@ as int),
        plain(MetricKind::Counter, "projections.checkpoint_updates"@, m.checkpoint_updates@ as int),
        plain(MetricKind::Gauge, "projections.active"@, m.active_projections as int),
    ] + percentile_sample("projection.processing_duration"@, m.processing_duration@, 95, "p95"@) + per_name(
        MetricKind::Gauge,
        "projection.lag_ms"@,
        "projection"@,
        m.lag_by_projection.spec_pairs(),
    )
}

fn sample(kind: MetricKind, name: &str, value: i128) -> (s: MetricSample)
    ensures
        sample_view(s) == plain(kind, name@, value as int),
{
    let s = MetricSample { kind, name: name.to_owned(), value, labels: Vec::new() };
    proof {
        assert(s.labels@.map_values(|l: (String, String)| (l.0@, l.1@)) =~= Seq::<(Seq<char>, Seq<char>)>::empty());
    }
    s
}

fn push_percentile(out: &mut Vec<MetricSample>, name: &str, timer: &Timer, p: u64, label: &str)
    requires
        p <= 100,
    ensures
        samples_view(final(out)@) == samples_view(old(out)@) + percentile_sample(name@, timer@, p as nat, label@),
{
    let ghost before = out@;
    let value = if p == 95 {
        timer.p95()
    } else if p == 99 {
        timer.p99()
    } else {
        timer.percentile(p)
    };
    match value {
        Some(v) => {
            let labels = vec![("percentile".to_owned(), label.to_owned())];
            let s = MetricSample { kind: MetricKind::Histogram, name: name.to_owned(), value: v as i128, labels };
            out.push(s);
            proof {
                assert(s.labels@.map_values(|l: (String, String)| (l.0@, l.1@)) =~= seq![("percentile"@, label@)]);
                assert(samples_view(out@) =~= samples_view(before) + percentile_sample(
                    name@,
                    timer@,
                    p as nat,
                    label@,
                ));
            }
        },
        None => {
            proof {
                assert(samples_view(out@) =~= samples_view(before) + percentile_sample(
                    name@,
                    timer@,
                    p as nat,
                    label@,
                ));
            }
        },
    }
}

fn push_per_name(out: &mut Vec<MetricSample>, kind: MetricKind, name: &str, key: &str, values: &NamedValues<u64>)
    ensures
        samples_view(final(out)@) == samples_view(old(out)@) + per_name(kind, name@, key@, values.spec_pairs()),
{
    let ghost before = out@;
    let pairs = values.pairs();
    let ghost p = values.spec_pairs();
    let mut i: usize = 0;
    while i < pairs.len()
        invariant
            i <= pairs@.len(),
            pairs@.map_values(|e: (String, u64)| (e.0@, e.1)) == p,
            samples_view(out@) == samples_view(before) + per_name(kind, name@, key@, p.subrange(0, i as int)),
        decreases pairs@.len() - i,
    {
        let ghost mid = out@;
        let labels = vec![(key.to_owned(), pairs[i].0.clone())];
        let s = MetricSample { kind, name: name.to_owned(), value: pairs[i].1 as i128, labels };
        out.push(s);
        proof {
            assert(p[i as int] == (pairs@[i as int].0@, pairs@[i as int].1));
            assert(s.labels@.map_values(|l: (String, String)| (l.0@, l.1@)) =~= seq![(key@, p[i as int].0)]);
            assert(samples_view(out@) =~= samples_view(mid).push(sample_view(s)));
            assert(per_name(kind, name@, key@, p.subrange(0, i + 1)) =~= per_name(
                kind,
                name@,
                key@,
                p.subrange(0, i as int),
            ).push((kind, name@, p[i as int].1 as int, seq![(key@, p[i as int].0)])));
        }
        i = i + 1;
    }
    proof {
        assert(p.subrange(0, p.len() as int) =~= p);
    }
}

/// The samples that exporting command metrics sends, as
/// [`command_samples`] lists them.
pub fn export_command_metrics(metrics: &CommandMetrics) -> (out: Vec<MetricSample>)
    ensures
        samples_view(out@) == command_samples(*metrics),
{
    let mut out: Vec<MetricSample> = Vec::new();
    out.push(sample(MetricKind::Counter, "commands.executed", metrics.commands_executed.get() as i128));
    out.push(sample(MetricKind::Counter, "commands.succeeded", metrics.commands_succeeded.get() as i128));
    out.push(sample(MetricKind::Counter, "commands.failed", metrics.commands_failed.get() as i128));
    out.push(sample(MetricKind::Gauge, "commands.concurrent", metrics.concurrent_commands as i128));
    proof {
        assert(samples_view(out@) =~= seq![
            plain(MetricKind::Counter, "commands.executed"@, metrics.commands_executed@ as int),
            plain(MetricKind::Counter, "commands.succeeded"@, metrics.commands_succeeded@ as int),
            plain(MetricKind::Counter, "commands.failed"@, metrics.commands_failed@ as int),
            plain(MetricKind::Gauge, "commands.concurrent"@, metrics.concurrent_commands as int),
        ]);
    }
    push_percentile(&mut out, "command.duration", &metrics.command_duration, 95, "p95");
    push_percentile(&mut out, "command.duration", &metrics.command_duration, 99, "p99");
    push_per_name(&mut out, MetricKind::Counter, "commands.by_type", "command_type", &metrics.commands_by_type);
    push_per_name(&mut out, MetricKind::Counter, "command.errors", "error_type", &metrics.errors_by_type);
    out
}

/// The samples that exporting event store metrics sends, as
/// [`event_store_samples`] lists them.
pub fn export_event_store_metrics(metrics: &EventStoreMetrics) -> (out: Vec<MetricSample>)
    ensures
        samples_view(out@) == event_store_samples(*metrics),
{
    let mut out: Vec<MetricSample> = Vec::new();
    out.push(sample(MetricKind::Counter, "event_store.reads", metrics.reads_total.get() as i128));
    out.push(sample(MetricKind::Counter, "event_store.writes", metrics.writes_total.get() as i128));
    out.push(sample(MetricKind::Counter, "events.written", metrics.events_written.get() as i128));
    out.push(sample(MetricKind::Counter, "events.read", metrics.events_read.get() as i128));
    out.push(
        sample(MetricKind::Gauge, "event_store.concurrent_operations", metrics.concurrent_operations as i128),
    );
    out.push(sample(MetricKind::Gauge, "streams.count", metrics.stream_count as i128));
    proof {
        assert(samples_view(out@) =~= seq![
            plain(MetricKind::Counter, "event_store.reads"@, metrics.reads_total@ as int),
            plain(MetricKind::Counter, "event_store.writes"@, metrics.writes_total@ as int),
            plain(MetricKind::Counter, "events.written"@, metrics.events_written@ as int),
            plain(MetricKind::Counter, "events.read"@, metrics.events_read@ as int),
            plain(MetricKind::Gauge, "event_store.concurrent_operations"@, metrics.concurrent_operations as int),
            plain(MetricKind::Gauge, "streams.count"@, metrics.stream_count as int),
        ]);
    }
    push_percentile(&mut out, "event_store.read_duration", &metrics.read_duration, 95, "p95");
    push_percentile(&mut out, "event_store.write_duration", &metrics.write_duration, 95, "p95");
    out
}

/// The samples that exporting projection metrics sends, as
/// [`projection_samples`] lists them.
pub fn export_projection_metrics(metrics: &ProjectionMetrics) -> (out: Vec<MetricSample>)
    ensures
        samples_view(out@) == projection_samples(*metrics),
{
    let mut out: Vec<MetricSample> = Vec::new();
    out.push(sample(MetricKind::Counter, "projections.events_processed", metrics.events_processed.get() as i128));
    out.push(sample(MetricKind::Counter, "projections.events_skipped", metrics.events_skipped.get() as i128));
    out.push(sample(MetricKind::Counter, "projections.errors", metrics.projection_errors.get() as i128));
    out.push(
        sample(MetricKind::Counter, "projections.checkpoint_updates", metrics.checkpoint_updates.get() as i128),
    );
    out.push(sample(MetricKind::Gauge, "projections.active", metrics.active_projections as i128));
    proof {
        assert(samples_view(out@) =~= seq![
            plain(MetricKind::Counter, "projections.events_processed"@, metrics.events_processed@ as int),
            plain(MetricKind::Counter, "projections.events_skipped"@, metrics.events_skipped@ as int),
            plain(MetricKind::Counter, "projections.errors"@, metrics.projection_errors@ as int),
            plain(MetricKind::Counter, "projections.checkpoint_updates"@, metrics.checkpoint_updates@ as int),
            plain(MetricKind::Gauge, "projections.active"@, metrics.active_projections as int),
        ]);
    }
    push_percentile(&mut out, "projection.processing_duration", &metrics.processing_duration, 95, "p95");
    push_per_name(&mut out, MetricKind::Gauge, "projection.lag_ms", "projection", &metrics.lag_by_projection);
    out
}

} // verus!
