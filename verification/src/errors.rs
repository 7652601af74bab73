//! Errors of command execution, with their messages and categories.

use vstd::prelude::*;

use crate::text::{decimal, decimal_string};
use crate::types::{store_error_text, EventStoreError, StreamId};

verus! {

/// Why a command could not be executed.
#[derive(Debug, Clone, PartialEq, Eq)]
pub enum CommandError {
    /// The command's input was invalid.
    ValidationFailed(String),
    /// The command would break a business rule.
    BusinessRuleViolation(String),
    /// The domain refused the command.
    DomainError { message: String },
    /// Other writers changed the streams the command read.
    ConcurrencyConflict { streams: Vec<StreamId> },
    /// A stream the command needs does not exist.
    StreamNotFound(StreamId),
    /// The command touched a stream it did not declare.
    InvalidStreamAccess { stream: StreamId, declared_streams: Vec<StreamId> },
    /// The command wrote to a stream it did not declare.
    StreamNotDeclared { stream: StreamId, command_type: String },
    /// An event of an unexpected type was met.
    TypeMismatch { expected: String, found: String },
    /// The caller may not execute the command.
    Unauthorized(String),
    /// The event store failed.
    EventStore(EventStoreError),
    /// The command failed in an unexpected way.
    Internal(String),
    /// The command did not finish within this many milliseconds.
    Timeout(u64),
}

/// The texts of stream identifiers, separated by `", "`.
pub open spec fn stream_list_text(streams: Seq<StreamId>) -> Seq<char>
    decreases streams.len(),
{
    if streams.len() == 0 {
        Seq::empty()
    } else if streams.len() == 1 {
        streams[0]@
    } else {
        stream_list_text(streams.drop_last()) + ", "@ + streams.last()@
    }
}

/// The message of a command error.
pub open spec fn command_error_text(e: CommandError) -> Seq<char> {
    match e {
        CommandError::ValidationFailed(m) => "validation failed: "@ + m@,
        CommandError::BusinessRuleViolation(m) => "business rule violation: "@ + m@,
        CommandError::DomainError { message } => "domain error: "@ + message@,
        CommandError::ConcurrencyConflict { streams } => "concurrency conflict on streams: "@
            + stream_list_text(streams@),
        CommandError::StreamNotFound(id) => "stream not found: "@ + id@,
        CommandError::InvalidStreamAccess { stream, declared_streams } => "invalid access to stream "@
            + stream@ + "; declared streams: "@ + stream_list_text(declared_streams@),
        CommandError::StreamNotDeclared { stream, command_type } => "stream "@ + stream@
            + " was not declared by command "@ + command_type@,
        CommandError::TypeMismatch { expected, found } => "type mismatch: expected "@ + expected@
            + ", found "@ + found@,
        CommandError::Unauthorized(m) => "unauthorized: "@ + m@,
        CommandError::EventStore(inner) => "event store error: "@ + store_error_text(inner),
        CommandError::Internal(m) => "internal error: "@ + m@,
        CommandError::Timeout(ms) => "command timed out after "@ + decimal(ms as nat) + " ms"@,
    }
}

/// The category under which a command error is counted and logged.
pub open spec fn command_error_category(e: CommandError) -> Seq<char> {
    match e {
        CommandError::ValidationFailed(_) => "validation_failed"@,
        CommandError::BusinessRuleViolation(_) => "business_rule_violation"@,
        CommandError::DomainError { .. } => "domain_error"@,
        CommandError::ConcurrencyConflict { .. } => "concurrency_conflict"@,
        CommandError::StreamNotFound(_) => "stream_not_found"@,
        CommandError::InvalidStreamAccess { .. } => "invalid_stream_access"@,
        CommandError::StreamNotDeclared { .. } => "stream_not_declared"@,
        CommandError::TypeMismatch { .. } => "type_mismatch"@,
        CommandError::Unauthorized(_) => "unauthorized"@,
        CommandError::EventStore(_) => "event_store_error"@,
        CommandError::Internal(_) => "internal_error"@,
        CommandError::Timeout(_) => "timeout"@,
    }
}

/// The category under which an event store error is logged.
pub open spec fn store_error_category(e: EventStoreError) -> Seq<char> {
    match e {
        EventStoreError::StreamNotFound(_) => "stream_not_found"@,
        EventStoreError::VersionConflict => "version_conflict"@,
        EventStoreError::UndeclaredStream { .. } => "undeclared_stream"@,
        EventStoreError::ConflictingExpectedVersions { .. } => "conflicting_expected_versions"@,
        EventStoreError::StoreFailure { .. } => "store_failure"@,
        EventStoreError::DuplicateEventId(_) => "duplicate_event_id"@,
        EventStoreError::ConnectionFailed(_) => "connection_failed"@,
        EventStoreError::Configuration(_) => "configuration_error"@,
        EventStoreError::TransactionRollback(_) => "transaction_rollback"@,
        EventStoreError::SerializationFailed(_) => "serialization_failed"@,
        EventStoreError::DeserializationFailed(_) => "deserialization_failed"@,
        EventStoreError::SchemaEvolutionError(_) => "schema_evolution_error"@,
        EventStoreError::Io(_) => "io_error"@,
        EventStoreError::Timeout(_) => "timeout"@,
        EventStoreError::Unavailable(_) => "unavailable"@,
        EventStoreError::Internal(_) => "internal_error"@,
    }
}

/// Joins the texts of `streams` with `", "`.
fn stream_list_string(streams: &Vec<StreamId>) -> (s: String)
    ensures
        s@ == stream_list_text(streams@),
{
    let mut s = String::new();
    let mut i: usize = 0;
    while i < streams.len()
        invariant
            i <= streams.len(),
            s@ == stream_list_text(streams@.subrange(0, i as int)),
        decreases streams.len() - i,
    {
        proof {
            assert(streams@.subrange(0, i + 1).drop_last() =~= streams@.subrange(0, i as int));
        }
        if i == 0 {
            s = s.concat(streams[i].as_str());
        } else {
            s = s.concat(", ").concat(streams[i].as_str());
        }
        i = i + 1;
    }
    proof {
        assert(streams@.subrange(0, streams@.len() as int) =~= streams@);
    }
    s
}

impl CommandError {
    /// The error's message, as [`command_error_text`] gives it.
    pub fn message(&self) -> (s: String)
        ensures
            s@ == command_error_text(*self),
    {
        match self {
            CommandError::ValidationFailed(m) => "validation failed: ".to_owned().concat(m.as_str()),
            CommandError::BusinessRuleViolation(m) => "business rule violation: ".to_owned().concat(
                m.as_str(),
            ),
            CommandError::DomainError { message } => "domain error: ".to_owned().concat(message.as_str()),
            CommandError::ConcurrencyConflict { streams } => {
                let list = stream_list_string(streams);
                "concurrency conflict on streams: ".to_owned().concat(list.as_str())
            },
            CommandError::StreamNotFound(id) => "stream not found: ".to_owned().concat(id.as_str()),
            CommandError::InvalidStreamAccess { stream, declared_streams } => {
                let list = stream_list_string(declared_streams);
                "invalid access to stream ".to_owned().concat(stream.as_str()).concat(
                    "; declared streams: ",
                ).concat(list.as_str())
            },
            CommandError::StreamNotDeclared { stream, command_type } => "stream ".to_owned().concat(
                stream.as_str(),
            ).concat(" was not declared by command ").concat(command_type.as_str()),
            CommandError::TypeMismatch { expected, found } => "type mismatch: expected ".to_owned().concat(
                expected.as_str(),
            ).concat(", found ").concat(found.as_str()),
            CommandError::Unauthorized(m) => "unauthorized: ".to_owned().concat(m.as_str()),
            CommandError::EventStore(inner) => {
                let t = inner.message();
                "event store error: ".to_owned().concat(t.as_str())
            },
            CommandError::Internal(m) => "internal error: ".to_owned().concat(m.as_str()),
            CommandError::Timeout(ms) => {
                let d = decimal_string(*ms);
                "command timed out after ".to_owned().concat(d.as_str()).concat(" ms")
            },
        }
    }
}

} // verus!
