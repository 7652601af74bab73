//! Trace contexts that correlate the operations of one request, and the
//! structured records that the tracers of commands, event store operations
//! and projections hand to the log.

use std::time::Instant;
use vstd::prelude::*;

use crate::clock::{elapsed_nanos, now};
use crate::logging::LogLevel;
use crate::metadata::Metadata;
use crate::text::{decimal, decimal_string};
use crate::types::{new_id_string, uuid_text, EventId, StreamId};

verus! {

/// The lag beyond which a projection's lag is logged as a warning: thirty
/// seconds, in nanoseconds.
pub const HIGH_LAG_THRESHOLD: u64 = 30_000_000_000;

/// The text of a list of named fields.
pub open spec fn field_texts(v: Seq<(String, String)>) -> Seq<(Seq<char>, Seq<char>)> {
    v.map_values(|f: (String, String)| (f.0@, f.1@))
}

/// Whether `s` is the canonical text of some UUID.
pub open spec fn is_uuid_text(s: Seq<char>) -> bool {
    exists|v: u128| s == uuid_text(v)
}

/// The text of an optional string.
pub open spec fn opt_text(o: Option<String>) -> Option<Seq<char>> {
    match o {
        Some(s) => Some(s@),
        None => None,
    }
}

/// Whole milliseconds in `nanos` nanoseconds, in decimal.
pub open spec fn millis_text(nanos: u64) -> Seq<char> {
    decimal((nanos / 1_000_000) as nat)
}

/// A structured record for the log: a level, a message, and named fields in
/// the order they are reported.
#[derive(Debug)]
pub struct TraceRecord {
    /// Severity.
    pub level: LogLevel,
    /// What happened.
    pub message: String,
    /// Named values, in order.
    pub fields: Vec<(String, String)>,
}

pub(crate) fn push_field(fields: &mut Vec<(String, String)>, key: &str, value: String)
    ensures
        field_texts(final(fields)@) == field_texts(old(fields)@).push((key@, value@)),
{
    let ghost before = fields@;
    let k = key.to_owned();
    let ghost pair = (k@, value@);
    fields.push((k, value));
    proof {
        assert forall|j: int| 0 <= j < fields@.len() implies #[trigger] field_texts(fields@)[j]
            == field_texts(before).push(pair)[j] by {
            if j < before.len() {
                assert(fields@[j] == before[j]);
            }
        }
        assert(field_texts(fields@) =~= field_texts(before).push(pair));
    }
}

pub(crate) fn record(level: LogLevel, message: &str, fields: Vec<(String, String)>) -> (r: TraceRecord)
    ensures
        r.level == level,
        r.message@ == message@,
        r.fields == fields,
{
    TraceRecord { level, message: message.to_owned(), fields }
}

/// The context of one traced operation: the trace it belongs to, its own
/// span, the span it was started from, and metadata that child spans
/// inherit.
#[derive(Debug)]
pub struct TraceContext {
    /// Identifier of the whole trace.
    pub trace_id: String,
    /// Identifier of this span.
    pub span_id: String,
    /// Identifier of the parent span, for a child span.
    pub parent_span_id: Option<String>,
    /// The operation traced.
    pub operation_name: String,
    /// Context metadata.
    pub metadata: Metadata,
    /// When the span started.
    pub start_time: Instant,
}

/// The fields of the span a context opens: its identifiers, its parent's
/// (`none` for a root), its operation, then its metadata in order.
pub open spec fn span_fields(c: TraceContext) -> Seq<(Seq<char>, Seq<char>)> {
    seq![
        ("trace_id"@, c.trace_id@),
        ("span_id"@, c.span_id@),
        (
            "parent_span_id"@,
            match c.parent_span_id {
                Some(p) => p@,
                None => "none"@,
            },
        ),
        ("operation"@, c.operation_name@),
    ] + c.metadata.spec_pairs()
}

impl TraceContext {
    /// A root context for `operation_name`, with fresh trace and span
    /// identifiers and no metadata, started now.
    pub fn new(operation_name: &str) -> (c: Self)
        ensures
            is_uuid_text(c.trace_id@),
            c.trace_id@.len() == 36,
            is_uuid_text(c.span_id@),
            c.span_id@.len() == 36,
            c.parent_span_id.is_none(),
            c.operation_name@ == operation_name@,
            c.metadata@ == Map::<Seq<char>, Seq<char>>::empty(),
    {
        let trace_id = new_id_string();
        let span_id = new_id_string();
        TraceContext {
            trace_id,
            span_id,
            parent_span_id: None,
            operation_name: operation_name.to_owned(),
            metadata: Metadata::new(),
            start_time: now(),
        }
    }

    /// A child of this context for `operation_name`: same trace, a fresh
    /// span whose parent is this one, the same metadata, started now.
    pub fn child(&self, operation_name: &str) -> (c: Self)
        ensures
            c.trace_id@ == self.trace_id@,
            is_uuid_text(c.span_id@),
            c.span_id@.len() == 36,
            opt_text(c.parent_span_id) == Some(self.span_id@),
            c.operation_name@ == operation_name@,
            c.metadata@ == self.metadata@,
    {
        let span_id = new_id_string();
        TraceContext {
            trace_id: self.trace_id.clone(),
            span_id,
            parent_span_id: Some(self.span_id.clone()),
            operation_name: operation_name.to_owned(),
            metadata: self.metadata.clone(),
            start_time: now(),
        }
    }

    /// Sets the metadata entry `key` to `value`.
    pub fn with_metadata(self, key: &str, value: &str) -> (c: Self)
        ensures
            c.trace_id == self.trace_id,
            c.span_id == self.span_id,
            c.parent_span_id == self.parent_span_id,
            c.operation_name == self.operation_name,
            c.start_time == self.start_time,
            c.metadata@ == self.metadata@.insert(key@, value@),
    {
        let mut c = self;
        c.metadata.insert(key.to_owned(), value.to_owned());
        c
    }

    /// The time since the span started, in nanoseconds.
    pub fn elapsed(&self) -> u64 {
        elapsed_nanos(&self.start_time)
    }

    /// The fields of the span this context opens, as [`span_fields`] lists
    /// them.
    pub fn create_span(&self) -> (fields: Vec<(String, String)>)
        ensures
            field_texts(fields@) == span_fields(*self),
    {
        let mut fields: Vec<(String, String)> = Vec::new();
        push_field(&mut fields, "trace_id", self.trace_id.clone());
        push_field(&mut fields, "span_id", self.span_id.clone());
        let parent = match &self.parent_span_id {
            Some(p) => p.clone(),
            None => "none".to_owned(),
        };
        push_field(&mut fields, "parent_span_id", parent);
        push_field(&mut fields, "operation", self.operation_name.clone());
        let ghost head = field_texts(fields@);
        let entries = self.metadata.entries();
        let mut i: usize = 0;
        while i < entries.len()
            invariant
                i <= entries@.len(),
                field_texts(entries@) == self.metadata.spec_pairs(),
                field_texts(fields@) == head + self.metadata.spec_pairs().take(i as int),
            decreases entries@.len() - i,
        {
            let k = entries[i].0.clone();
            let v = entries[i].1.clone();
            let ghost before = field_texts(fields@);
            fields.push((k, v));
            proof {
                let pairs = self.metadata.spec_pairs();
                assert(pairs[i as int] == (entries@[i as int].0@, entries@[i as int].1@));
                assert(pairs.take(i + 1) =~= pairs.take(i as int).push(pairs[i as int]));
                assert(field_texts(fields@) =~= before.push(pairs[i as int]));
            }
            i = i + 1;
        }
        proof {
            assert(self.metadata.spec_pairs().take(entries@.len() as int)
                =~= self.metadata.spec_pairs());
        }
        fields
    }
}

/// The ids of a list of streams, between brackets and separated by commas.
pub open spec fn ids_text(ids: Seq<StreamId>) -> Seq<char> {
    "["@ + joined_ids(ids) + "]"@
}

/// The ids of a list of streams, separated by `", "`.
pub open spec fn joined_ids(ids: Seq<StreamId>) -> Seq<char>
    decreases ids.len(),
{
    if ids.len() == 0 {
        Seq::empty()
    } else if ids.len() == 1 {
        ids[0]@
    } else {
        joined_ids(ids.drop_last()) + ", "@ + ids.last()@
    }
}

fn ids_string(ids: &Vec<StreamId>) -> (s: String)
    ensures
        s@ == ids_text(ids@),
{
    let mut s = "[".to_owned();
    let mut i: usize = 0;
    while i < ids.len()
        invariant
            i <= ids@.len(),
            s@ == "["@ + joined_ids(ids@.take(i as int)),
        decreases ids@.len() - i,
    {
        let ghost before = s@;
        if i > 0 {
            s = s.concat(", ");
        }
        s = s.concat(ids[i].as_str());
        proof {
            let t = ids@.take(i + 1);
            assert(t.drop_last() =~= ids@.take(i as int));
            assert(t.last() == ids@[i as int]);
            if i == 0 {
                assert(joined_ids(t) == ids@[0]@);
                assert(joined_ids(ids@.take(0)) == Seq::<char>::empty());
            }
            assert(s@ =~= "["@ + joined_ids(t));
        }
        i = i + 1;
    }
    proof {
        assert(ids@.take(ids@.len() as int) =~= ids@);
    }
    s.concat("]")
}

/// Tracing of one command execution.
#[derive(Debug)]
pub struct CommandTracer {
    /// The command's trace context.
    pub context: TraceContext,
    /// The command's type.
    pub command_type: String,
    /// The streams the command reads and writes.
    pub stream_ids: Vec<StreamId>,
    /// How many times the command was retried.
    pub retry_count: u32,
}

/// The fields of a command's completion record, for a run of `nanos`
/// nanoseconds; a successful run also reports the events written.
pub open spec fn command_completion_fields(
    t: CommandTracer,
    success: bool,
    events_written: usize,
    nanos: u64,
) -> Seq<(Seq<char>, Seq<char>)> {
    let common = seq![
        ("trace_id"@, t.context.trace_id@),
        ("command_type"@, t.command_type@),
        ("duration_ms"@, millis_text(nanos)),
        ("retry_count"@, decimal(t.retry_count as nat)),
        ("stream_count"@, decimal(t.stream_ids@.len())),
    ];
    if success {
        common.push(("events_written"@, decimal(events_written as nat)))
    } else {
        common
    }
}

impl CommandTracer {
    /// Starts tracing a command of type `command_type` on `stream_ids`: a
    /// root context for `command_execution` that records the command type
    /// and the number of streams.
    pub fn new(command_type: &str, stream_ids: Vec<StreamId>) -> (t: Self)
        ensures
            t.context.operation_name@ == "command_execution"@,
            t.context.parent_span_id.is_none(),
            is_uuid_text(t.context.trace_id@),
            t.context.metadata@ == Map::<Seq<char>, Seq<char>>::empty().insert(
                "command_type"@,
                command_type@,
            ).insert("stream_count"@, decimal(stream_ids@.len())),
            t.command_type@ == command_type@,
            t.stream_ids@ == stream_ids@,
            t.retry_count == 0,
    {
        let count = decimal_string(stream_ids.len() as u64);
        let context = TraceContext::new("command_execution").with_metadata(
            "command_type",
            command_type,
        ).with_metadata("stream_count", count.as_str());
        CommandTracer { context, command_type: command_type.to_owned(), stream_ids, retry_count: 0 }
    }

    /// A child context for `operation`, which records the command type and
    /// the retry count.
    pub fn child_span(&self, operation: &str) -> (c: TraceContext)
        ensures
            c.trace_id@ == self.context.trace_id@,
            opt_text(c.parent_span_id) == Some(self.context.span_id@),
            c.operation_name@ == operation@,
            c.metadata@ == self.context.metadata@.insert("command_type"@, self.command_type@).insert(
                "retry_count"@,
                decimal(self.retry_count as nat),
            ),
    {
        let retries = decimal_string(self.retry_count as u64);
        self.context.child(operation).with_metadata("command_type", self.command_type.as_str()).with_metadata(
            "retry_count",
            retries.as_str(),
        )
    }

    /// Counts a retry; the record warns of it.
    pub fn record_retry(&mut self) -> (r: TraceRecord)
        requires
            old(self).retry_count < u32::MAX,
        ensures
            final(self).retry_count == old(self).retry_count + 1,
            final(self).context == old(self).context,
            final(self).command_type == old(self).command_type,
            final(self).stream_ids == old(self).stream_ids,
            r.level == LogLevel::Warn,
            r.message@ == "Command retry attempt"@,
            field_texts(r.fields@) == seq![
                ("trace_id"@, old(self).context.trace_id@),
                ("command_type"@, old(self).command_type@),
                ("retry_count"@, decimal(final(self).retry_count as nat)),
            ],
    {
        self.retry_count = self.retry_count + 1;
        let mut fields: Vec<(String, String)> = Vec::new();
        push_field(&mut fields, "trace_id", self.context.trace_id.clone());
        push_field(&mut fields, "command_type", self.command_type.clone());
        push_field(&mut fields, "retry_count", decimal_string(self.retry_count as u64));
        record(LogLevel::Warn, "Command retry attempt", fields)
    }

    /// The record of the command's completion: informational on success,
    /// an error otherwise, with the time since the context started.
    pub fn record_completion(&self, success: bool, events_written: usize) -> (r: TraceRecord)
        ensures
            r.level == if success {
                LogLevel::Info
            } else {
                LogLevel::Error
            },
            r.message@ == if success {
                "Command execution completed successfully"@
            } else {
                "Command execution failed"@
            },
            exists|nanos: u64|
                field_texts(r.fields@) == command_completion_fields(*self, success, events_written, nanos),
    {
        let nanos = self.context.elapsed();
        let mut fields: Vec<(String, String)> = Vec::new();
        push_field(&mut fields, "trace_id", self.context.trace_id.clone());
        push_field(&mut fields, "command_type", self.command_type.clone());
        push_field(&mut fields, "duration_ms", decimal_string(nanos / 1_000_000));
        push_field(&mut fields, "retry_count", decimal_string(self.retry_count as u64));
        push_field(&mut fields, "stream_count", decimal_string(self.stream_ids.len() as u64));
        if success {
            push_field(&mut fields, "events_written", decimal_string(events_written as u64));
            let r = record(LogLevel::Info, "Command execution completed successfully", fields);
            assert(field_texts(r.fields@) == command_completion_fields(*self, success, events_written, nanos));
            r
        } else {
            let r = record(LogLevel::Error, "Command execution failed", fields);
            assert(field_texts(r.fields@) == command_completion_fields(*self, success, events_written, nanos));
            r
        }
    }

    /// The command's trace context.
    pub fn context(&self) -> (c: &TraceContext)
        ensures
            *c == self.context,
    {
        &self.context
    }
}

/// Tracing of one event store operation.
#[derive(Debug)]
pub struct EventStoreTracer {
    /// The operation's trace context.
    pub context: TraceContext,
    /// The kind of operation.
    pub operation_type: String,
    /// The streams the operation touches.
    pub stream_ids: Vec<StreamId>,
}

/// The fields of an event store operation's completion record, for a run
/// of `nanos` nanoseconds; a successful run also reports the event count.
pub open spec fn store_completion_fields(
    t: EventStoreTracer,
    success: bool,
    event_count: usize,
    nanos: u64,
) -> Seq<(Seq<char>, Seq<char>)> {
    let common = seq![
        ("trace_id"@, t.context.trace_id@),
        ("operation_type"@, t.operation_type@),
        ("duration_ms"@, millis_text(nanos)),
        ("stream_count"@, decimal(t.stream_ids@.len())),
    ];
    if success {
        common.push(("event_count"@, decimal(event_count as nat)))
    } else {
        common
    }
}

impl EventStoreTracer {
    /// Starts tracing an event store operation of type `operation_type` on
    /// `stream_ids`: a root context for `event_store_operation` that records
    /// the operation type and the number of streams.
    pub fn new(operation_type: &str, stream_ids: Vec<StreamId>) -> (t: Self)
        ensures
            t.context.operation_name@ == "event_store_operation"@,
            t.context.parent_span_id.is_none(),
            is_uuid_text(t.context.trace_id@),
            t.context.metadata@ == Map::<Seq<char>, Seq<char>>::empty().insert(
                "operation_type"@,
                operation_type@,
            ).insert("stream_count"@, decimal(stream_ids@.len())),
            t.operation_type@ == operation_type@,
            t.stream_ids@ == stream_ids@,
    {
        let count = decimal_string(stream_ids.len() as u64);
        let context = TraceContext::new("event_store_operation").with_metadata(
            "operation_type",
            operation_type,
        ).with_metadata("stream_count", count.as_str());
        EventStoreTracer { context, operation_type: operation_type.to_owned(), stream_ids }
    }

    /// The record of the operation's start, with the streams it touches.
    pub fn record_start(&self) -> (r: TraceRecord)
        ensures
            r.level == LogLevel::Debug,
            r.message@ == "Event store operation started"@,
            field_texts(r.fields@) == seq![
                ("trace_id"@, self.context.trace_id@),
                ("operation_type"@, self.operation_type@),
                ("stream_count"@, decimal(self.stream_ids@.len())),
                ("stream_ids"@, ids_text(self.stream_ids@)),
            ],
    {
        let mut fields: Vec<(String, String)> = Vec::new();
        push_field(&mut fields, "trace_id", self.context.trace_id.clone());
        push_field(&mut fields, "operation_type", self.operation_type.clone());
        push_field(&mut fields, "stream_count", decimal_string(self.stream_ids.len() as u64));
        push_field(&mut fields, "stream_ids", ids_string(&self.stream_ids));
        record(LogLevel::Debug, "Event store operation started", fields)
    }

    /// The record of the operation's completion: a debug record on success,
    /// a warning otherwise, with the time since the context started.
    pub fn record_completion(&self, success: bool, event_count: usize) -> (r: TraceRecord)
        ensures
            r.level == if success {
                LogLevel::Debug
            } else {
                LogLevel::Warn
            },
            r.message@ == if success {
                "Event store operation completed successfully"@
            } else {
                "Event store operation failed"@
            },
            exists|nanos: u64|
                field_texts(r.fields@) == store_completion_fields(*self, success, event_count, nanos),
    {
        let nanos = self.context.elapsed();
        let mut fields: Vec<(String, String)> = Vec::new();
        push_field(&mut fields, "trace_id", self.context.trace_id.clone());
        push_field(&mut fields, "operation_type", self.operation_type.clone());
        push_field(&mut fields, "duration_ms", decimal_string(nanos / 1_000_000));
        push_field(&mut fields, "stream_count", decimal_string(self.stream_ids.len() as u64));
        if success {
            push_field(&mut fields, "event_count", decimal_string(event_count as u64));
            let r = record(LogLevel::Debug, "Event store operation completed successfully", fields);
            assert(field_texts(r.fields@) == store_completion_fields(*self, success, event_count, nanos));
            r
        } else {
            let r = record(LogLevel::Warn, "Event store operation failed", fields);
            assert(field_texts(r.fields@) == store_completion_fields(*self, success, event_count, nanos));
            r
        }
    }

    /// The operation's trace context.
    pub fn context(&self) -> (c: &TraceContext)
        ensures
            *c == self.context,
    {
        &self.context
    }
}

/// Tracing of a projection's processing.
#[derive(Debug)]
pub struct ProjectionTracer {
    /// The processing's trace context.
    pub context: TraceContext,
    /// The projection's name.
    pub projection_name: String,
    /// The event being processed, if any.
    pub event_id: Option<EventId>,
}

/// The fields of a projection's completion record, for a run of `nanos`
/// nanoseconds; a successful run also reports the events processed.
pub open spec fn projection_completion_fields(
    t: ProjectionTracer,
    success: bool,
    events_processed: usize,
    nanos: u64,
) -> Seq<(Seq<char>, Seq<char>)> {
    let common = seq![
        ("trace_id"@, t.context.trace_id@),
        ("projection_name"@, t.projection_name@),
        ("duration_ms"@, millis_text(nanos)),
    ];
    if success {
        common.push(("events_processed"@, decimal(events_processed as nat)))
    } else {
        common
    }
}

impl ProjectionTracer {
    /// Starts tracing the processing of `projection_name`: a root context for
    /// `projection_processing` that records the projection's name and, when
    /// given, the event's id.
    pub fn new(projection_name: &str, event_id: Option<EventId>) -> (t: Self)
        ensures
            t.context.operation_name@ == "projection_processing"@,
            t.context.parent_span_id.is_none(),
            is_uuid_text(t.context.trace_id@),
            t.context.metadata@ == match event_id {
                Some(id) => Map::<Seq<char>, Seq<char>>::empty().insert(
                    "projection_name"@,
                    projection_name@,
                ).insert("event_id"@, uuid_text(id@)),
                None => Map::<Seq<char>, Seq<char>>::empty().insert(
                    "projection_name"@,
                    projection_name@,
                ),
            },
            t.projection_name@ == projection_name@,
            t.event_id == event_id,
    {
        let mut context = TraceContext::new("projection_processing").with_metadata(
            "projection_name",
            projection_name,
        );
        match event_id {
            Some(id) => {
                let text = id.to_text();
                context = context.with_metadata("event_id", text.as_str());
            },
            None => {},
        }
        ProjectionTracer { context, projection_name: projection_name.to_owned(), event_id }
    }

    /// The record of the processing's start; it names the event when there
    /// is one.
    pub fn record_start(&self) -> (r: TraceRecord)
        ensures
            r.level == LogLevel::Debug,
            r.message@ == "Projection processing started"@,
            field_texts(r.fields@) == match self.event_id {
                Some(id) => seq![
                    ("trace_id"@, self.context.trace_id@),
                    ("projection_name"@, self.projection_name@),
                    ("event_id"@, uuid_text(id@)),
                ],
                None => seq![
                    ("trace_id"@, self.context.trace_id@),
                    ("projection_name"@, self.projection_name@),
                ],
            },
    {
        let mut fields: Vec<(String, String)> = Vec::new();
        push_field(&mut fields, "trace_id", self.context.trace_id.clone());
        push_field(&mut fields, "projection_name", self.projection_name.clone());
        match self.event_id {
            Some(id) => push_field(&mut fields, "event_id", id.to_text()),
            None => {},
        }
        record(LogLevel::Debug, "Projection processing started", fields)
    }

    /// The record of the processing's completion: a debug record on
    /// success, a warning otherwise, with the time since the context
    /// started.
    pub fn record_completion(&self, success: bool, events_processed: usize) -> (r: TraceRecord)
        ensures
            r.level == if success {
                LogLevel::Debug
            } else {
                LogLevel::Warn
            },
            r.message@ == if success {
                "Projection processing completed successfully"@
            } else {
                "Projection processing failed"@
            },
            exists|nanos: u64|
                field_texts(r.fields@) == projection_completion_fields(*self, success, events_processed, nanos),
    {
        let nanos = self.context.elapsed();
        let mut fields: Vec<(String, String)> = Vec::new();
        push_field(&mut fields, "trace_id", self.context.trace_id.clone());
        push_field(&mut fields, "projection_name", self.projection_name.clone());
        push_field(&mut fields, "duration_ms", decimal_string(nanos / 1_000_000));
        if success {
            push_field(&mut fields, "events_processed", decimal_string(events_processed as u64));
            let r = record(LogLevel::Debug, "Projection processing completed successfully", fields);
            assert(field_texts(r.fields@) == projection_completion_fields(*self, success, events_processed, nanos));
            r
        } else {
            let r = record(LogLevel::Warn, "Projection processing failed", fields);
            assert(field_texts(r.fields@) == projection_completion_fields(*self, success, events_processed, nanos));
            r
        }
    }

    /// The record of a lag of `lag` nanoseconds: a warning beyond
    /// [`HIGH_LAG_THRESHOLD`], a debug record otherwise.
    pub fn record_lag(&self, lag: u64) -> (r: TraceRecord)
        ensures
            r.level == if lag > HIGH_LAG_THRESHOLD {
                LogLevel::Warn
            } else {
                LogLevel::Debug
            },
            r.message@ == if lag > HIGH_LAG_THRESHOLD {
                "High projection lag detected"@
            } else {
                "Projection lag updated"@
            },
            field_texts(r.fields@) == seq![
                ("trace_id"@, self.context.trace_id@),
                ("projection_name"@, self.projection_name@),
                ("lag_ms"@, millis_text(lag)),
            ],
    {
        let mut fields: Vec<(String, String)> = Vec::new();
        push_field(&mut fields, "trace_id", self.context.trace_id.clone());
        push_field(&mut fields, "projection_name", self.projection_name.clone());
        push_field(&mut fields, "lag_ms", decimal_string(lag / 1_000_000));
        if lag > HIGH_LAG_THRESHOLD {
            record(LogLevel::Warn, "High projection lag detected", fields)
        } else {
            record(LogLevel::Debug, "Projection lag updated", fields)
        }
    }

    /// The processing's trace context.
    pub fn context(&self) -> (c: &TraceContext)
        ensures
            *c == self.context,
    {
        &self.context
    }
}

/// A span opened for one operation, closed by recording its success or
/// failure.
#[derive(Debug)]
pub struct SpanGuard {
    span: Vec<(String, String)>,
    context: TraceContext,
    operation: String,
}

/// The fields of a span's closing record, for a span open `nanos`
/// nanoseconds.
pub open spec fn closing_fields(trace_id: Seq<char>, operation: Seq<char>, nanos: u64) -> Seq<
    (Seq<char>, Seq<char>),
> {
    seq![("trace_id"@, trace_id), ("operation"@, operation), ("duration_ms"@, millis_text(nanos))]
}

impl SpanGuard {
    /// The context of the span.
    pub closed spec fn spec_context(&self) -> TraceContext {
        self.context
    }

    /// The operation of the span.
    pub closed spec fn spec_operation(&self) -> Seq<char> {
        self.operation@
    }

    /// The fields of the span.
    pub closed spec fn spec_span(&self) -> Seq<(Seq<char>, Seq<char>)> {
        field_texts(self.span@)
    }

    /// Opens a span for `operation` in `context`.
    pub fn new(context: TraceContext, operation: &str) -> (g: Self)
        ensures
            g.spec_context() == context,
            g.spec_operation() == operation@,
            g.spec_span() == span_fields(context),
    {
        let span = context.create_span();
        SpanGuard { span, context, operation: operation.to_owned() }
    }

    /// The record of the span's opening.
    pub fn started(&self) -> (r: TraceRecord)
        ensures
            r.level == LogLevel::Info,
            r.message@ == "Operation started"@,
            field_texts(r.fields@) == seq![
                ("trace_id"@, self.spec_context().trace_id@),
                ("operation"@, self.spec_operation()),
            ],
    {
        let mut fields: Vec<(String, String)> = Vec::new();
        push_field(&mut fields, "trace_id", self.context.trace_id.clone());
        push_field(&mut fields, "operation", self.operation.clone());
        record(LogLevel::Info, "Operation started", fields)
    }

    /// Closes the span on success.
    pub fn success(self) -> (r: TraceRecord)
        ensures
            r.level == LogLevel::Info,
            r.message@ == "Operation completed successfully"@,
            exists|nanos: u64|
                field_texts(r.fields@) == closing_fields(
                    self.spec_context().trace_id@,
                    self.spec_operation(),
                    nanos,
                ),
    {
        let nanos = self.context.elapsed();
        let mut fields: Vec<(String, String)> = Vec::new();
        push_field(&mut fields, "trace_id", self.context.trace_id.clone());
        push_field(&mut fields, "operation", self.operation.clone());
        push_field(&mut fields, "duration_ms", decimal_string(nanos / 1_000_000));
        let r = record(LogLevel::Info, "Operation completed successfully", fields);
        assert(field_texts(r.fields@) == closing_fields(self.spec_context().trace_id@, self.spec_operation(), nanos));
        r
    }

    /// Closes the span on failure with `error`.
    pub fn failure(self, error: &str) -> (r: TraceRecord)
        ensures
            r.level == LogLevel::Error,
            r.message@ == "Operation failed"@,
            exists|nanos: u64|
                field_texts(r.fields@) == closing_fields(
                    self.spec_context().trace_id@,
                    self.spec_operation(),
                    nanos,
                ).push(("error"@, error@)),
    {
        let nanos = self.context.elapsed();
        let mut fields: Vec<(String, String)> = Vec::new();
        push_field(&mut fields, "trace_id", self.context.trace_id.clone());
        push_field(&mut fields, "operation", self.operation.clone());
        push_field(&mut fields, "duration_ms", decimal_string(nanos / 1_000_000));
        push_field(&mut fields, "error", error.to_owned());
        let r = record(LogLevel::Error, "Operation failed", fields);
        assert(field_texts(r.fields@) == closing_fields(self.spec_context().trace_id@, self.spec_operation(), nanos).push(
            ("error"@, error@),
        ));
        r
    }

    /// The span's trace context.
    pub fn context(&self) -> (c: &TraceContext)
        ensures
            *c == self.spec_context(),
    {
        &self.context
    }

    /// The span's fields.
    pub fn span(&self) -> (v: &Vec<(String, String)>)
        ensures
            field_texts(v@) == self.spec_span(),
    {
        &self.span
    }
}

/// A root context for executing a command of type `command_type`, which
/// records the command type and, when given, the correlation id.
pub fn command_span(command_type: &str, correlation_id: Option<&str>) -> (c: TraceContext)
    ensures
        c.operation_name@ == "command_execution"@,
        c.parent_span_id.is_none(),
        is_uuid_text(c.trace_id@),
        c.metadata@ == match correlation_id {
            Some(id) => Map::<Seq<char>, Seq<char>>::empty().insert("command_type"@, command_type@).insert(
                "correlation_id"@,
                id@,
            ),
            None => Map::<Seq<char>, Seq<char>>::empty().insert("command_type"@, command_type@),
        },
{
    let context = TraceContext::new("command_execution").with_metadata("command_type", command_type);
    match correlation_id {
        Some(id) => context.with_metadata("correlation_id", id),
        None => context,
    }
}

/// A root context for an event store operation on `stream_ids`, which
/// records the operation and the number of streams.
pub fn event_store_span(operation: &str, stream_ids: &[StreamId]) -> (c: TraceContext)
    ensures
        c.operation_name@ == "event_store_operation"@,
        c.parent_span_id.is_none(),
        is_uuid_text(c.trace_id@),
        c.metadata@ == Map::<Seq<char>, Seq<char>>::empty().insert("operation"@, operation@).insert(
            "stream_count"@,
            decimal(stream_ids@.len()),
        ),
{
    let count = decimal_string(stream_ids.len() as u64);
    TraceContext::new("event_store_operation").with_metadata("operation", operation).with_metadata(
        "stream_count",
        count.as_str(),
    )
}

/// A root context for a projection processing `event_id`, which records the
/// projection's name and the event's id.
pub fn projection_span(projection_name: &str, event_id: &EventId) -> (c: TraceContext)
    ensures
        c.operation_name@ == "projection_processing"@,
        c.parent_span_id.is_none(),
        is_uuid_text(c.trace_id@),
        c.metadata@ == Map::<Seq<char>, Seq<char>>::empty().insert(
            "projection_name"@,
            projection_name@,
        ).insert("event_id"@, uuid_text(event_id@)),
{
    let text = event_id.to_text();
    TraceContext::new("projection_processing").with_metadata("projection_name", projection_name).with_metadata(
        "event_id",
        text.as_str(),
    )
}

/// A trace id for the current operation: a fresh one, since spans carry no
/// readable context here.
pub fn extract_trace_context() -> (r: Option<String>)
    ensures
        r.is_some(),
        is_uuid_text(r.unwrap()@),
{
    Some(new_id_string())
}

} // verus!
