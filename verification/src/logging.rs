//! Structured log records: what a record holds, how it is rendered as JSON,
//! and the records that the library's components write about commands,
//! event store operations, projections and security events.
//!
//! A record is built here; writing it out is left to the caller.

use vstd::prelude::*;

use crate::assoc::{assoc_map, keys_distinct};
use crate::clock::utc_now_rfc3339;
use crate::errors::{command_error_category, command_error_text, store_error_category, CommandError};
use crate::json::{copy_value, items_view, json_view, lemma_items_view, lemma_members_view, members_view, JsonValue, JsonView};
use crate::named::NamedValues;
use crate::text::{decimal, decimal_string};
use crate::types::{store_error_text, uuid_text, EventId, EventStoreError, StreamId};

pub mod loggers;

verus! {

/// Severity of a structured log record.
#[derive(Debug, Clone, Copy, PartialEq, Eq, Structural)]
pub enum LogLevel {
    /// Fine-grained diagnostics.
    Trace,
    /// Diagnostics.
    Debug,
    /// Normal operation.
    Info,
    /// Something unexpected that the system recovers from.
    Warn,
    /// A failure.
    Error,
}

/// The lowercase name of a level, as it appears in a record's JSON.
pub open spec fn level_name(l: LogLevel) -> Seq<char> {
    match l {
        LogLevel::Trace => "trace"@,
        LogLevel::Debug => "debug"@,
        LogLevel::Info => "info"@,
        LogLevel::Warn => "warn"@,
        LogLevel::Error => "error"@,
    }
}

fn level_text(level: LogLevel) -> (s: &'static str)
    ensures
        s@ == level_name(level),
{
    match level {
        LogLevel::Trace => "trace",
        LogLevel::Debug => "debug",
        LogLevel::Info => "info",
        LogLevel::Warn => "warn",
        LogLevel::Error => "error",
    }
}

/// The contents of named JSON values.
pub open spec fn view_fields(m: Map<Seq<char>, JsonValue>) -> Map<Seq<char>, JsonView> {
    m.map_values(|v: JsonValue| json_view(v))
}

/// Storing a value under a name stores its content under that name.
pub proof fn lemma_view_fields_insert(m: Map<Seq<char>, JsonValue>, k: Seq<char>, v: JsonValue)
    ensures
        view_fields(m.insert(k, v)) == view_fields(m).insert(k, json_view(v)),
{
    assert(view_fields(m.insert(k, v)) =~= view_fields(m).insert(k, json_view(v)));
}

/// A structured log record.
#[derive(Debug)]
pub struct LogEntry {
    /// Severity.
    pub level: LogLevel,
    /// What happened.
    pub message: String,
    /// When the record was made, in RFC 3339 form, UTC.
    pub timestamp: String,
    /// The trace that the record belongs to.
    pub trace_id: Option<String>,
    /// The component that made the record.
    pub component: String,
    /// The operation under way.
    pub operation: String,
    /// Further named values.
    pub fields: NamedValues<JsonValue>,
    /// The error message, for a failure.
    pub error: Option<String>,
    /// How long the operation took, in whole milliseconds.
    pub duration_ms: Option<u64>,
}

/// The members of a record's JSON object, in order: level, message,
/// timestamp, component, operation and fields, then the trace id, the error
/// and the duration where the record has them.
pub open spec fn entry_members(e: LogEntry) -> Seq<(Seq<char>, JsonView)> {
    seq![
        ("level"@, JsonView::String(level_name(e.level))),
        ("message"@, JsonView::String(e.message@)),
        ("timestamp"@, JsonView::String(e.timestamp@)),
        ("component"@, JsonView::String(e.component@)),
        ("operation"@, JsonView::String(e.operation@)),
        ("fields"@, JsonView::Object(pairs_view(e.fields.spec_pairs()))),
    ] + match e.trace_id {
        Some(t) => seq![("trace_id"@, JsonView::String(t@))],
        None => Seq::empty(),
    } + match e.error {
        Some(m) => seq![("error"@, JsonView::String(m@))],
        None => Seq::empty(),
    } + match e.duration_ms {
        Some(d) => seq![("duration_ms"@, JsonView::Number(decimal(d as nat)))],
        None => Seq::empty(),
    }
}

/// Names with the contents of their values.
pub open spec fn pairs_view(p: Seq<(Seq<char>, JsonValue)>) -> Seq<(Seq<char>, JsonView)> {
    p.map_values(|e: (Seq<char>, JsonValue)| (e.0, json_view(e.1)))
}

/// The JSON array of stream identifiers' texts.
pub open spec fn streams_json(ids: Seq<StreamId>) -> JsonView {
    JsonView::Array(ids.map_values(|s: StreamId| JsonView::String(s@)))
}

/// Copies an object's members.
fn copy_members(pairs: &Vec<(String, JsonValue)>) -> (r: Vec<(String, JsonValue)>)
    ensures
        members_view(r@) == pairs@.map_values(|e: (String, JsonValue)| (e.0@, json_view(e.1))),
{
    let mut r: Vec<(String, JsonValue)> = Vec::new();
    let mut i: usize = 0;
    while i < pairs.len()
        invariant
            i <= pairs@.len(),
            members_view(r@) == pairs@.subrange(0, i as int).map_values(
                |e: (String, JsonValue)| (e.0@, json_view(e.1)),
            ),
        decreases pairs@.len() - i,
    {
        let ghost before = r@;
        let name = pairs[i].0.clone();
        let value = copy_value(&pairs[i].1);
        r.push((name, value));
        proof {
            assert(r@.drop_last() =~= before);
            assert(pairs@.subrange(0, i + 1).map_values(|e: (String, JsonValue)| (e.0@, json_view(e.1)))
                =~= pairs@.subrange(0, i as int).map_values(
                |e: (String, JsonValue)| (e.0@, json_view(e.1)),
            ).push((pairs@[i as int].0@, json_view(pairs@[i as int].1))));
        }
        i = i + 1;
    }
    proof {
        assert(pairs@.subrange(0, pairs@.len() as int) =~= pairs@);
    }
    r
}

/// The identifiers' texts as a JSON array.
fn stream_id_array(ids: &[StreamId]) -> (r: JsonValue)
    ensures
        json_view(r) == streams_json(ids@),
{
    let mut items: Vec<JsonValue> = Vec::new();
    let mut i: usize = 0;
    while i < ids.len()
        invariant
            i <= ids@.len(),
            items@.len() == i,
            forall|j: int| 0 <= j < i ==> json_view(#[trigger] items@[j]) == JsonView::String(ids@[j]@),
        decreases ids@.len() - i,
    {
        items.push(JsonValue::String(ids[i].as_str().to_owned()));
        i = i + 1;
    }
    proof {
        lemma_items_view(items@);
        assert(items_view(items@) =~= ids@.map_values(|s: StreamId| JsonView::String(s@)));
    }
    JsonValue::Array(items)
}

/// A JSON number of the integer `n`.
fn number(n: u64) -> (r: JsonValue)
    ensures
        json_view(r) == JsonView::Number(decimal(n as nat)),
{
    JsonValue::Number(decimal_string(n))
}

/// A JSON string of `s`.
fn text(s: &str) -> (r: JsonValue)
    ensures
        json_view(r) == JsonView::String(s@),
{
    JsonValue::String(s.to_owned())
}

impl LogEntry {
    /// A record without trace, fields, error or duration, stamped with the
    /// current time.
    pub fn new(level: LogLevel, message: &str, component: &str, operation: &str) -> (e: Self)
        ensures
            e.level == level,
            e.message@ == message@,
            e.component@ == component@,
            e.operation@ == operation@,
            e.trace_id.is_none(),
            e.fields.spec_map() == Map::<Seq<char>, JsonValue>::empty(),
            e.error.is_none(),
            e.duration_ms.is_none(),
    {
        LogEntry {
            level,
            message: message.to_owned(),
            timestamp: utc_now_rfc3339(),
            trace_id: None,
            component: component.to_owned(),
            operation: operation.to_owned(),
            fields: NamedValues::new(),
            error: None,
            duration_ms: None,
        }
    }

    /// The record with the trace it belongs to.
    pub fn with_trace_id(self, trace_id: String) -> (e: Self)
        ensures
            e.trace_id == Some(trace_id),
            e.level == self.level,
            e.message == self.message,
            e.timestamp == self.timestamp,
            e.component == self.component,
            e.operation == self.operation,
            e.fields == self.fields,
            e.error == self.error,
            e.duration_ms == self.duration_ms,
    {
        let mut e = self;
        e.trace_id = Some(trace_id);
        e
    }

    /// The record with `value` stored under `key`, replacing what the key
    /// held.
    pub fn with_field(self, key: &str, value: JsonValue) -> (e: Self)
        ensures
            e.fields.spec_map() == self.fields.spec_map().insert(key@, value),
            view_fields(e.fields.spec_map()) == view_fields(self.fields.spec_map()).insert(
                key@,
                json_view(value),
            ),
            e.level == self.level,
            e.message == self.message,
            e.timestamp == self.timestamp,
            e.trace_id == self.trace_id,
            e.component == self.component,
            e.operation == self.operation,
            e.error == self.error,
            e.duration_ms == self.duration_ms,
    {
        proof {
            lemma_view_fields_insert(self.fields.spec_map(), key@, value);
        }
        let mut e = self;
        e.fields.put(key, value);
        e
    }

    /// The record with an error message.
    pub fn with_error(self, error: &str) -> (e: Self)
        ensures
            e.error matches Some(m) && m@ == error@,
            e.level == self.level,
            e.message == self.message,
            e.timestamp == self.timestamp,
            e.trace_id == self.trace_id,
            e.component == self.component,
            e.operation == self.operation,
            e.fields == self.fields,
            e.duration_ms == self.duration_ms,
    {
        let mut e = self;
        e.error = Some(error.to_owned());
        e
    }

    /// The record with the duration of `duration_nanos` nanoseconds, kept in
    /// whole milliseconds.
    pub fn with_duration(self, duration_nanos: u64) -> (e: Self)
        ensures
            e.duration_ms == Some(duration_nanos / 1_000_000),
            e.level == self.level,
            e.message == self.message,
            e.timestamp == self.timestamp,
            e.trace_id == self.trace_id,
            e.component == self.component,
            e.operation == self.operation,
            e.fields == self.fields,
            e.error == self.error,
    {
        let mut e = self;
        e.duration_ms = Some(duration_nanos / 1_000_000);
        e
    }

    /// The record as a JSON object, its members as [`entry_members`] lists
    /// them.
    pub fn to_json(&self) -> (v: JsonValue)
        ensures
            json_view(v) == JsonView::Object(entry_members(*self)),
    {
        let pairs = self.fields.pairs();
        let fields = copy_members(pairs);
        let mut members: Vec<(String, JsonValue)> = Vec::new();
        members.push(("level".to_owned(), text(level_text(self.level))));
        members.push(("message".to_owned(), text(self.message.as_str())));
        members.push(("timestamp".to_owned(), text(self.timestamp.as_str())));
        members.push(("component".to_owned(), text(self.component.as_str())));
        members.push(("operation".to_owned(), text(self.operation.as_str())));
        members.push(("fields".to_owned(), JsonValue::Object(fields)));
        match &self.trace_id {
            Some(t) => members.push(("trace_id".to_owned(), text(t.as_str()))),
            None => {},
        }
        match &self.error {
            Some(m) => members.push(("error".to_owned(), text(m.as_str()))),
            None => {},
        }
        match self.duration_ms {
            Some(d) => members.push(("duration_ms".to_owned(), number(d))),
            None => {},
        }
        proof {
            lemma_members_view(members@);
            let expected = entry_members(*self);
            assert(pairs@.map_values(|e: (String, JsonValue)| (e.0@, json_view(e.1))) =~= pairs_view(
                self.fields.spec_pairs(),
            ));
            assert(members_view(members@) =~= expected);
        }
        JsonValue::Object(members)
    }
}

/// Makes structured records for one component, each carrying the
/// component's default fields.
#[derive(Debug)]
pub struct StructuredLogger {
    /// The component's name.
    pub component: String,
    /// Fields that every record of the component carries.
    pub default_fields: NamedValues<JsonValue>,
}

/// What a logger's record carries before the record's own fields: its
/// level, message and operation, the logger's component and default fields,
/// and no trace, error or duration.
pub open spec fn fresh_record(
    e: LogEntry,
    logger: StructuredLogger,
    level: LogLevel,
    message: Seq<char>,
    operation: Seq<char>,
) -> bool {
    &&& e.level == level
    &&& e.message@ == message
    &&& e.component@ == logger.component@
    &&& e.operation@ == operation
    &&& view_fields(e.fields.spec_map()) == view_fields(logger.default_fields.spec_map())
    &&& e.trace_id.is_none()
    &&& e.error.is_none()
    &&& e.duration_ms.is_none()
}

/// A record made for a trace, carrying level, message, operation and the
/// logger's component; its fields are the logger's defaults with `added`
/// stored over them.
pub open spec fn traced_record(
    e: LogEntry,
    logger: StructuredLogger,
    level: LogLevel,
    message: Seq<char>,
    operation: Seq<char>,
    trace_id: Seq<char>,
    added: Map<Seq<char>, JsonView>,
) -> bool {
    &&& e.level == level
    &&& e.message@ == message
    &&& e.component@ == logger.component@
    &&& e.operation@ == operation
    &&& e.trace_id matches Some(t) && t@ == trace_id
    &&& view_fields(e.fields.spec_map()) == view_fields(logger.default_fields.spec_map()).union_prefer_right(
        added,
    )
}

impl StructuredLogger {
    /// A logger for `component`, without default fields.
    pub fn new(component: &str) -> (l: Self)
        ensures
            l.component@ == component@,
            l.default_fields.spec_map() == Map::<Seq<char>, JsonValue>::empty(),
    {
        StructuredLogger { component: component.to_owned(), default_fields: NamedValues::new() }
    }

    /// The logger with `value` stored under `key` in its default fields.
    pub fn with_default_field(self, key: &str, value: JsonValue) -> (l: Self)
        ensures
            l.component == self.component,
            l.default_fields.spec_map() == self.default_fields.spec_map().insert(key@, value),
    {
        let mut l = self;
        l.default_fields.put(key, value);
        l
    }

    /// A record of this component with its default fields.
    pub fn create_entry(&self, level: LogLevel, message: &str, operation: &str) -> (e: LogEntry)
        ensures
            fresh_record(e, *self, level, message@, operation@),
    {
        let mut e = LogEntry::new(level, message, self.component.as_str(), operation);
        let pairs = self.default_fields.pairs();
        let ghost p = self.default_fields.spec_pairs();
        let mut i: usize = 0;
        while i < pairs.len()
            invariant
                i <= pairs@.len(),
                pairs@.map_values(|e: (String, JsonValue)| (e.0@, e.1)) == p,
                view_fields(e.fields.spec_map()) == view_fields(assoc_map(p.subrange(0, i as int))),
                e.level == level,
                e.message@ == message@,
                e.component@ == self.component@,
                e.operation@ == operation@,
                e.trace_id.is_none(),
                e.error.is_none(),
                e.duration_ms.is_none(),
            decreases pairs@.len() - i,
        {
            let value = copy_value(&pairs[i].1);
            proof {
                assert(p[i as int] == (pairs@[i as int].0@, pairs@[i as int].1));
                assert(p.subrange(0, i + 1).drop_last() =~= p.subrange(0, i as int));
                lemma_view_fields_insert(assoc_map(p.subrange(0, i as int)), p[i as int].0, p[i as int].1);
                lemma_view_fields_insert(e.fields.spec_map(), p[i as int].0, value);
            }
            e = e.with_field(pairs[i].0.as_str(), value);
            i = i + 1;
        }
        proof {
            assert(p.subrange(0, p.len() as int) =~= p);
        }
        e
    }

    /// A trace record of this component.
    pub fn trace(&self, operation: &str, message: &str) -> (e: LogEntry)
        ensures
            fresh_record(e, *self, LogLevel::Trace, message@, operation@),
    {
        self.create_entry(LogLevel::Trace, message, operation)
    }

    /// A debug record of this component.
    pub fn debug(&self, operation: &str, message: &str) -> (e: LogEntry)
        ensures
            fresh_record(e, *self, LogLevel::Debug, message@, operation@),
    {
        self.create_entry(LogLevel::Debug, message, operation)
    }

    /// An info record of this component.
    pub fn info(&self, operation: &str, message: &str) -> (e: LogEntry)
        ensures
            fresh_record(e, *self, LogLevel::Info, message@, operation@),
    {
        self.create_entry(LogLevel::Info, message, operation)
    }

    /// A warning record of this component.
    pub fn warn(&self, operation: &str, message: &str) -> (e: LogEntry)
        ensures
            fresh_record(e, *self, LogLevel::Warn, message@, operation@),
    {
        self.create_entry(LogLevel::Warn, message, operation)
    }

    /// An error record of this component.
    pub fn error(&self, operation: &str, message: &str) -> (e: LogEntry)
        ensures
            fresh_record(e, *self, LogLevel::Error, message@, operation@),
    {
        self.create_entry(LogLevel::Error, message, operation)
    }

    /// The record of a command's start: an info record of operation
    /// `command_execution` with the command type, the number and texts of
    /// the streams it reads, and its retry count.
    pub fn log_command_start(&self, trace_id: &str, command_type: &str, stream_ids: &[StreamId], retry_count: u32) -> (e:
        LogEntry)
        ensures
            traced_record(
                e,
                *self,
                LogLevel::Info,
                "Command execution started"@,
                "command_execution"@,
                trace_id@,
                map![
                    "command_type"@ => JsonView::String(command_type@),
                    "stream_count"@ => JsonView::Number(decimal(stream_ids@.len())),
                    "stream_ids"@ => streams_json(stream_ids@),
                    "retry_count"@ => JsonView::Number(decimal(retry_count as nat)),
                ],
            ),
            e.error.is_none(),
            e.duration_ms.is_none(),
    {
        let e = self.info("command_execution", "Command execution started");
        let ghost d = view_fields(e.fields.spec_map());
        let e = e.with_trace_id(trace_id.to_owned());
        let e = e.with_field("command_type", text(command_type));
        let e = e.with_field("stream_count", number(stream_ids.len() as u64));
        let e = e.with_field("stream_ids", stream_id_array(stream_ids));
        let e = e.with_field("retry_count", number(retry_count as u64));
        proof {
            assert(view_fields(e.fields.spec_map()) =~= d.union_prefer_right(
                map![
                    "command_type"@ => JsonView::String(command_type@),
                    "stream_count"@ => JsonView::Number(decimal(stream_ids@.len())),
                    "stream_ids"@ => streams_json(stream_ids@),
                    "retry_count"@ => JsonView::Number(decimal(retry_count as nat)),
                ],
            ));
        }
        e
    }

    /// The record of a command's end. A success is an info record with the
    /// number of events written; a failure is an error record with the
    /// error's message and category. Both carry the command type, the retry
    /// count and the duration.
    pub fn log_command_completion(
        &self,
        trace_id: &str,
        command_type: &str,
        result: &Result<usize, CommandError>,
        duration_nanos: u64,
        retry_count: u32,
    ) -> (e: LogEntry)
        ensures
            e.duration_ms == Some(duration_nanos / 1_000_000),
            match result {
                Ok(n) => traced_record(
                    e,
                    *self,
                    LogLevel::Info,
                    "Command execution completed successfully"@,
                    "command_execution"@,
                    trace_id@,
                    map![
                        "events_written"@ => JsonView::Number(decimal(*n as nat)),
                        "command_type"@ => JsonView::String(command_type@),
                        "retry_count"@ => JsonView::Number(decimal(retry_count as nat)),
                    ],
                ) && e.error.is_none(),
                Err(err) => traced_record(
                    e,
                    *self,
                    LogLevel::Error,
                    "Command execution failed"@,
                    "command_execution"@,
                    trace_id@,
                    map![
                        "error_type"@ => JsonView::String(command_error_category(*err)),
                        "command_type"@ => JsonView::String(command_type@),
                        "retry_count"@ => JsonView::Number(decimal(retry_count as nat)),
                    ],
                ) && (e.error matches Some(m) && m@ == command_error_text(*err)),
            },
    {
        let e = match result {
            Ok(n) => {
                let e = self.info("command_execution", "Command execution completed successfully");
                e.with_field("events_written", number(*n as u64))
            },
            Err(err) => {
                let message = err.message();
                let e = self.error("command_execution", "Command execution failed");
                let e = e.with_error(message.as_str());
                e.with_field("error_type", text(Self::classify_command_error(err)))
            },
        };
        let e = e.with_trace_id(trace_id.to_owned());
        let e = e.with_field("command_type", text(command_type));
        let e = e.with_field("retry_count", number(retry_count as u64));
        let e = e.with_duration(duration_nanos);
        proof {
            let defaults = view_fields(self.default_fields.spec_map());
            match result {
                Ok(n) => {
                    assert(view_fields(e.fields.spec_map()) =~= defaults.union_prefer_right(
                        map![
                            "events_written"@ => JsonView::Number(decimal(*n as nat)),
                            "command_type"@ => JsonView::String(command_type@),
                            "retry_count"@ => JsonView::Number(decimal(retry_count as nat)),
                        ],
                    ));
                },
                Err(err) => {
                    assert(view_fields(e.fields.spec_map()) =~= defaults.union_prefer_right(
                        map![
                            "error_type"@ => JsonView::String(command_error_category(*err)),
                            "command_type"@ => JsonView::String(command_type@),
                            "retry_count"@ => JsonView::Number(decimal(retry_count as nat)),
                        ],
                    ));
                },
            }
        }
        e
    }

    /// The record of the start of an event store operation: a debug record
    /// with the operation and the number and texts of the streams involved.
    pub fn log_event_store_start(&self, trace_id: &str, operation: &str, stream_ids: &[StreamId]) -> (e: LogEntry)
        ensures
            traced_record(
                e,
                *self,
                LogLevel::Debug,
                "Event store "@ + operation@ + " operation started"@,
                "event_store_operation"@,
                trace_id@,
                map![
                    "operation_type"@ => JsonView::String(operation@),
                    "stream_count"@ => JsonView::Number(decimal(stream_ids@.len())),
                    "stream_ids"@ => streams_json(stream_ids@),
                ],
            ),
            e.error.is_none(),
            e.duration_ms.is_none(),
    {
        let message = "Event store ".to_owned().concat(operation).concat(" operation started");
        let e = self.debug("event_store_operation", message.as_str());
        let ghost d = view_fields(e.fields.spec_map());
        let e = e.with_trace_id(trace_id.to_owned());
        let e = e.with_field("operation_type", text(operation));
        let e = e.with_field("stream_count", number(stream_ids.len() as u64));
        let e = e.with_field("stream_ids", stream_id_array(stream_ids));
        proof {
            assert(view_fields(e.fields.spec_map()) =~= d.union_prefer_right(
                map![
                    "operation_type"@ => JsonView::String(operation@),
                    "stream_count"@ => JsonView::Number(decimal(stream_ids@.len())),
                    "stream_ids"@ => streams_json(stream_ids@),
                ],
            ));
        }
        e
    }

    /// The record of the end of an event store operation. A success is a
    /// debug record with the number of events; a failure is a warning with
    /// the error's message and category. Both carry the operation and the
    /// duration.
    pub fn log_event_store_completion(
        &self,
        trace_id: &str,
        operation: &str,
        result: &Result<usize, EventStoreError>,
        duration_nanos: u64,
    ) -> (e: LogEntry)
        ensures
            e.duration_ms == Some(duration_nanos / 1_000_000),
            match result {
                Ok(n) => traced_record(
                    e,
                    *self,
                    LogLevel::Debug,
                    "Event store "@ + operation@ + " operation completed successfully"@,
                    "event_store_operation"@,
                    trace_id@,
                    map![
                        "event_count"@ => JsonView::Number(decimal(*n as nat)),
                        "operation_type"@ => JsonView::String(operation@),
                    ],
                ) && e.error.is_none(),
                Err(err) => traced_record(
                    e,
                    *self,
                    LogLevel::Warn,
                    "Event store "@ + operation@ + " operation failed"@,
                    "event_store_operation"@,
                    trace_id@,
                    map![
                        "error_type"@ => JsonView::String(store_error_category(*err)),
                        "operation_type"@ => JsonView::String(operation@),
                    ],
                ) && (e.error matches Some(m) && m@ == store_error_text(*err)),
            },
    {
        let e = match result {
            Ok(n) => {
                let message = "Event store ".to_owned().concat(operation).concat(
                    " operation completed successfully",
                );
                let e = self.debug("event_store_operation", message.as_str());
                e.with_field("event_count", number(*n as u64))
            },
            Err(err) => {
                let message = "Event store ".to_owned().concat(operation).concat(" operation failed");
                let error_text = err.message();
                let e = self.warn("event_store_operation", message.as_str());
                let e = e.with_error(error_text.as_str());
                e.with_field("error_type", text(Self::classify_event_store_error(err)))
            },
        };
        let e = e.with_trace_id(trace_id.to_owned());
        let e = e.with_field("operation_type", text(operation));
        let e = e.with_duration(duration_nanos);
        proof {
            let defaults = view_fields(self.default_fields.spec_map());
            match result {
                Ok(n) => {
                    assert(view_fields(e.fields.spec_map()) =~= defaults.union_prefer_right(
                        map![
                            "event_count"@ => JsonView::Number(decimal(*n as nat)),
                            "operation_type"@ => JsonView::String(operation@),
                        ],
                    ));
                },
                Err(err) => {
                    assert(view_fields(e.fields.spec_map()) =~= defaults.union_prefer_right(
                        map![
                            "error_type"@ => JsonView::String(store_error_category(*err)),
                            "operation_type"@ => JsonView::String(operation@),
                        ],
                    ));
                },
            }
        }
        e
    }

    /// The record of a projection handling an event. A success is a debug
    /// record; a failure is a warning with the error message. Both carry the
    /// projection's name, the event's identifier and the duration.
    pub fn log_projection_processing(
        &self,
        trace_id: &str,
        projection_name: &str,
        event_id: &EventId,
        result: &Result<(), String>,
        duration_nanos: u64,
    ) -> (e: LogEntry)
        ensures
            e.duration_ms == Some(duration_nanos / 1_000_000),
            traced_record(
                e,
                *self,
                if result is Ok {
                    LogLevel::Debug
                } else {
                    LogLevel::Warn
                },
                if result is Ok {
                    "Projection processing completed successfully"@
                } else {
                    "Projection processing failed"@
                },
                "projection_processing"@,
                trace_id@,
                map![
                    "projection_name"@ => JsonView::String(projection_name@),
                    "event_id"@ => JsonView::String(uuid_text(event_id@)),
                ],
            ),
            match result {
                Ok(_) => e.error.is_none(),
                Err(m) => e.error matches Some(t) && t@ == m@,
            },
    {
        let e = match result {
            Ok(()) => self.debug("projection_processing", "Projection processing completed successfully"),
            Err(error) => {
                let e = self.warn("projection_processing", "Projection processing failed");
                e.with_error(error.as_str())
            },
        };
        let ghost d = view_fields(e.fields.spec_map());
        let id_text = event_id.to_text();
        let e = e.with_trace_id(trace_id.to_owned());
        let e = e.with_field("projection_name", text(projection_name));
        let e = e.with_field("event_id", text(id_text.as_str()));
        let e = e.with_duration(duration_nanos);
        proof {
            assert(view_fields(e.fields.spec_map()) =~= d.union_prefer_right(
                map![
                    "projection_name"@ => JsonView::String(projection_name@),
                    "event_id"@ => JsonView::String(uuid_text(event_id@)),
                ],
            ));
        }
        e
    }

    /// The record of a security event: a warning when the outcome is
    /// `denied` or `failed`, else an info record, with the event type,
    /// resource, action, outcome and, where known, the user.
    pub fn log_security_event(
        &self,
        event_type: &str,
        user_id: Option<&str>,
        resource: &str,
        action: &str,
        result: &str,
    ) -> (e: LogEntry)
        ensures
            e.level == if result@ == "denied"@ || result@ == "failed"@ {
                LogLevel::Warn
            } else {
                LogLevel::Info
            },
            e.message@ == "Security event: "@ + event_type@,
            e.component@ == self.component@,
            e.operation@ == "security"@,
            e.trace_id.is_none(),
            e.error.is_none(),
            e.duration_ms.is_none(),
            view_fields(e.fields.spec_map()) == view_fields(self.default_fields.spec_map()).union_prefer_right(
                map![
                    "event_type"@ => JsonView::String(event_type@),
                    "resource"@ => JsonView::String(resource@),
                    "action"@ => JsonView::String(action@),
                    "result"@ => JsonView::String(result@),
                ],
            ).union_prefer_right(
                match user_id {
                    Some(u) => map!["user_id"@ => JsonView::String(u@)],
                    None => Map::empty(),
                },
            ),
    {
        let outcome = result.to_owned();
        let denied = "denied".to_owned();
        let failed = "failed".to_owned();
        let level = if outcome == denied || outcome == failed {
            LogLevel::Warn
        } else {
            LogLevel::Info
        };
        let message = "Security event: ".to_owned().concat(event_type);
        let e = self.create_entry(level, message.as_str(), "security");
        let ghost d = view_fields(e.fields.spec_map());
        let e = e.with_field("event_type", text(event_type));
        let e = e.with_field("resource", text(resource));
        let e = e.with_field("action", text(action));
        let e = e.with_field("result", text(result));
        let ghost base = view_fields(e.fields.spec_map());
        proof {
            assert(base =~= d.union_prefer_right(
                map![
                    "event_type"@ => JsonView::String(event_type@),
                    "resource"@ => JsonView::String(resource@),
                    "action"@ => JsonView::String(action@),
                    "result"@ => JsonView::String(result@),
                ],
            ));
        }
        let e = match user_id {
            Some(u) => e.with_field("user_id", text(u)),
            None => e,
        };
        proof {
            match user_id {
                Some(u) => {
                    assert(view_fields(e.fields.spec_map()) =~= base.union_prefer_right(
                        map!["user_id"@ => JsonView::String(u@)],
                    ));
                },
                None => {
                    assert(view_fields(e.fields.spec_map()) =~= base.union_prefer_right(Map::empty()));
                },
            }
        }
        e
    }

    /// The category of a command error, as records and metrics name it.
    pub fn classify_command_error(error: &CommandError) -> (s: &'static str)
        ensures
            s@ == command_error_category(*error),
    {
        match error {
            CommandError::ValidationFailed(_) => "validation_failed",
            CommandError::BusinessRuleViolation(_) => "business_rule_violation",
            CommandError::DomainError { .. } => "domain_error",
            CommandError::ConcurrencyConflict { .. } => "concurrency_conflict",
            CommandError::StreamNotFound(_) => "stream_not_found",
            CommandError::InvalidStreamAccess { .. } => "invalid_stream_access",
            CommandError::StreamNotDeclared { .. } => "stream_not_declared",
            CommandError::TypeMismatch { .. } => "type_mismatch",
            CommandError::Unauthorized(_) => "unauthorized",
            CommandError::EventStore(_) => "event_store_error",
            CommandError::Internal(_) => "internal_error",
            CommandError::Timeout(_) => "timeout",
        }
    }

    /// The category of an event store error, as records name it.
    pub fn classify_event_store_error(error: &EventStoreError) -> (s: &'static str)
        ensures
            s@ == store_error_category(*error),
    {
        match error {
            EventStoreError::StreamNotFound(_) => "stream_not_found",
            EventStoreError::VersionConflict => "version_conflict",
            EventStoreError::UndeclaredStream { .. } => "undeclared_stream",
            EventStoreError::ConflictingExpectedVersions { .. } => "conflicting_expected_versions",
            EventStoreError::StoreFailure { .. } => "store_failure",
            EventStoreError::DuplicateEventId(_) => "duplicate_event_id",
            EventStoreError::ConnectionFailed(_) => "connection_failed",
            EventStoreError::Configuration(_) => "configuration_error",
            EventStoreError::TransactionRollback(_) => "transaction_rollback",
            EventStoreError::SerializationFailed(_) => "serialization_failed",
            EventStoreError::DeserializationFailed(_) => "deserialization_failed",
            EventStoreError::SchemaEvolutionError(_) => "schema_evolution_error",
            EventStoreError::Io(_) => "io_error",
            EventStoreError::Timeout(_) => "timeout",
            EventStoreError::Unavailable(_) => "unavailable",
            EventStoreError::Internal(_) => "internal_error",
        }
    }
}

/// How records are to be written out.
#[derive(Debug)]
pub struct LoggingConfig {
    /// The least severe level written.
    pub level: LogLevel,
    /// Whether records name the source location.
    pub include_source: bool,
    /// Whether records are written as JSON rather than plain text.
    pub json_format: bool,
    /// Fields added to every record.
    pub global_fields: NamedValues<JsonValue>,
}

impl LoggingConfig {
    /// The default configuration: info level, no source locations, JSON,
    /// no global fields.
    pub fn new() -> (c: Self)
        ensures
            c.level == LogLevel::Info,
            !c.include_source,
            c.json_format,
            c.global_fields.spec_map() == Map::<Seq<char>, JsonValue>::empty(),
    {
        LoggingConfig {
            level: LogLevel::Info,
            include_source: false,
            json_format: true,
            global_fields: NamedValues::new(),
        }
    }

    /// The configuration with another least level.
    pub fn with_level(self, level: LogLevel) -> (c: Self)
        ensures
            c.level == level,
            c.include_source == self.include_source,
            c.json_format == self.json_format,
            c.global_fields == self.global_fields,
    {
        let mut c = self;
        c.level = level;
        c
    }

    /// The configuration with source locations.
    pub fn with_source_location(self) -> (c: Self)
        ensures
            c.level == self.level,
            c.include_source,
            c.json_format == self.json_format,
            c.global_fields == self.global_fields,
    {
        let mut c = self;
        c.include_source = true;
        c
    }

    /// The configuration with plain text in place of JSON.
    pub fn with_plain_format(self) -> (c: Self)
        ensures
            c.level == self.level,
            c.include_source == self.include_source,
            !c.json_format,
            c.global_fields == self.global_fields,
    {
        let mut c = self;
        c.json_format = false;
        c
    }

    /// The configuration with `value` stored under `key` among the global
    /// fields.
    pub fn with_global_field(self, key: &str, value: JsonValue) -> (c: Self)
        ensures
            c.level == self.level,
            c.include_source == self.include_source,
            c.json_format == self.json_format,
            c.global_fields.spec_map() == self.global_fields.spec_map().insert(key@, value),
    {
        let mut c = self;
        c.global_fields.put(key, value);
        c
    }
}

impl Default for LoggingConfig {
    fn default() -> (c: Self)
        ensures
            c.level == LogLevel::Info,
            !c.include_source,
            c.json_format,
            c.global_fields.spec_map() == Map::<Seq<char>, JsonValue>::empty(),
    {
        LoggingConfig::new()
    }
}

} // verus!
