//! Identifiers and versions of events and streams, and the batch of writes
//! that a command hands to an event store.

use vstd::prelude::*;

use crate::clock::{since_unix_epoch, system_now};
use crate::text::{decimal, decimal_string, lemma_trimmed_idempotent, trim, trimmed};

verus! {

/// The lowercase hexadecimal digit for `n`, below sixteen.
pub open spec fn hex_digit(n: nat) -> char {
    if n < 10 {
        (48 + n) as char
    } else {
        (87 + n) as char
    }
}

/// The last `count` hexadecimal digits of `value`, with leading zeros.
pub open spec fn hex_digits(value: nat, count: nat) -> Seq<char>
    decreases count,
{
    if count == 0 {
        Seq::empty()
    } else {
        hex_digits(value / 16, (count - 1) as nat).push(hex_digit(value % 16))
    }
}

/// The canonical text of a UUID with the given 128-bit value: its 32
/// lowercase hexadecimal digits, most significant first, in groups of
/// 8-4-4-4-12 joined by hyphens, as `uuid::Uuid` displays it.
pub open spec fn uuid_text(value: u128) -> Seq<char> {
    let v = value as nat;
    hex_digits(v / 0x1_0000_0000_0000_0000_0000_0000, 8) + "-"@ + hex_digits(v / 0x1_0000_0000_0000_0000_0000, 4)
        + "-"@ + hex_digits(v / 0x1_0000_0000_0000_0000, 4) + "-"@ + hex_digits(v / 0x1_0000_0000_0000, 4) + "-"@
        + hex_digits(v, 12)
}

/// Generates a version 7 UUID with `uuid::Uuid::now_v7` and returns its
/// 128-bit value. All values it gives in one process are ordered by the time
/// of the call. Nothing is stated of the value: it depends on the clock and
/// on random bits. `now_v7` reads the clock itself and panics when it reads
/// before the Unix epoch; its only caller reads the clock first and calls it
/// only when the reading is at or after the epoch. Like every use of the
/// crate's random bits, it panics when the operating system cannot supply
/// them.
#[verifier::external_body]
fn uuid_now_v7() -> u128 {
    uuid::Uuid::now_v7().as_u128()
}

/// Generates a version 7 UUID with `uuid::Uuid::new_v7` for the instant
/// `secs` seconds and `nanos` nanoseconds after the Unix epoch, built with
/// `uuid::Timestamp::from_unix` without a counter, and returns its 128-bit
/// value. Nothing is stated of the value: its low bits are random. It
/// panics, as every use of the crate's random bits does, when the operating
/// system cannot supply them.
#[verifier::external_body]
fn uuid_v7_at(secs: u64, nanos: u32) -> u128 {
    uuid::Uuid::new_v7(uuid::Timestamp::from_unix(uuid::NoContext, secs, nanos)).as_u128()
}

/// The system clock's time since the Unix epoch, or the epoch itself when
/// the clock reads before it.
fn unix_time_or_epoch() -> (r: (u64, u32))
    ensures
        r.1 < 1_000_000_000,
{
    match since_unix_epoch(&system_now()) {
        Some(reading) => reading,
        None => (0, 0),
    }
}

/// Renders a UUID with `uuid::Uuid::from_u128` and its `Display` impl, the
/// hyphenated form of 36 characters.
#[verifier::external_body]
fn uuid_string(value: u128) -> (s: String)
    ensures
        s@ == uuid_text(value),
        s@.len() == 36,
{
    uuid::Uuid::from_u128(value).to_string()
}

/// A fresh identifier in the canonical UUID text form.
pub fn new_id_string() -> (s: String)
    ensures
        exists|v: u128| s@ == uuid_text(v),
        s@.len() == 36,
{
    let (secs, nanos) = unix_time_or_epoch();
    uuid_string(uuid_v7_at(secs, nanos))
}

/// Unique identifier of an event: a time-ordered UUID.
#[derive(Debug, Clone, Copy, PartialEq, Eq, PartialOrd, Ord, Hash, Structural)]
pub struct EventId {
    value: u128,
}

impl View for EventId {
    type V = u128;

    open spec fn view(&self) -> u128 {
        self.spec_value()
    }
}

impl EventId {
    /// The UUID's 128-bit value.
    pub closed spec fn spec_value(&self) -> u128 {
        self.value
    }

    /// A fresh, time-ordered identifier: those made in one process are
    /// ordered by when they were made, while the clock reads at or after the
    /// Unix epoch. Before it, the identifier is made for the epoch.
    pub fn new() -> (id: Self) {
        match since_unix_epoch(&system_now()) {
            Some(_) => EventId { value: uuid_now_v7() },
            None => EventId { value: uuid_v7_at(0, 0) },
        }
    }

    /// The identifier with the given 128-bit UUID value.
    pub fn from_u128(value: u128) -> (id: Self)
        ensures
            id@ == value,
    {
        EventId { value }
    }

    /// The identifier's 128-bit UUID value.
    pub fn as_u128(&self) -> (v: u128)
        ensures
            v == self@,
    {
        self.value
    }

    /// The identifier in canonical UUID text form.
    pub fn to_text(&self) -> (s: String)
        ensures
            s@ == uuid_text(self@),
            s@.len() == 36,
    {
        uuid_string(self.value)
    }
}

/// Whether `c` may not appear in a stream identifier: the glob
/// metacharacters `*`, `?`, `[` and `]`.
pub open spec fn is_glob_metachar(c: char) -> bool {
    c == '*' || c == '?' || c == '[' || c == ']'
}

/// Whether `s`, already trimmed, is a valid stream identifier: not empty, at
/// most 255 characters, and free of glob metacharacters.
pub open spec fn valid_stream_id(s: Seq<char>) -> bool {
    &&& 0 < s.len() <= 255
    &&& forall|i: int| 0 <= i < s.len() ==> !is_glob_metachar(#[trigger] s[i])
}

/// The text of an accepted stream identifier is accepted again as it is:
/// trimming it changes nothing, and it is still valid.
pub proof fn lemma_stream_id_revalidates(value: Seq<char>)
    requires
        valid_stream_id(trimmed(value)),
    ensures
        trimmed(trimmed(value)) == trimmed(value),
        valid_stream_id(trimmed(trimmed(value))),
{
    lemma_trimmed_idempotent(value);
}

/// Why a stream identifier was refused.
#[derive(Debug, Clone, Copy, PartialEq, Eq, Structural)]
pub enum StreamIdError {
    /// Nothing but whitespace was given.
    Empty,
    /// More than 255 characters remain after trimming.
    TooLong,
    /// A glob metacharacter (`*`, `?`, `[` or `]`) appears.
    InvalidCharacter,
}

/// Identifier of an event stream: trimmed, not empty, at most 255
/// characters, and without glob metacharacters.
#[derive(Debug, PartialEq, Eq, Hash, PartialOrd, Ord)]
pub struct StreamId {
    value: String,
}

impl View for StreamId {
    type V = Seq<char>;

    open spec fn view(&self) -> Seq<char> {
        self.spec_text()
    }
}

impl Clone for StreamId {
    fn clone(&self) -> (r: Self)
        ensures
            r@ == self@,
    {
        StreamId { value: self.value.clone() }
    }
}

impl StreamId {
    /// The identifier's text.
    pub closed spec fn spec_text(&self) -> Seq<char> {
        self.value@
    }

    /// Validates `value` as a stream identifier after trimming whitespace.
    pub fn try_new(value: &str) -> (r: Result<Self, StreamIdError>)
        ensures
            ({
                let t = trimmed(value@);
                match r {
                    Ok(id) => valid_stream_id(t) && id@ == t,
                    Err(StreamIdError::Empty) => t.len() == 0,
                    Err(StreamIdError::TooLong) => t.len() > 255,
                    Err(StreamIdError::InvalidCharacter) => 0 < t.len() <= 255 && exists|i: int|
                        0 <= i < t.len() && is_glob_metachar(#[trigger] t[i]),
                }
            }),
    {
        let t = trim(value);
        let n = t.as_str().unicode_len();
        if n == 0 {
            return Err(StreamIdError::Empty);
        }
        if n > 255 {
            return Err(StreamIdError::TooLong);
        }
        let mut i: usize = 0;
        while i < n
            invariant
                n == t@.len(),
                t@ == trimmed(value@),
                0 < n <= 255,
                i <= n,
                forall|j: int| 0 <= j < i ==> !is_glob_metachar(#[trigger] t@[j]),
            decreases n - i,
        {
            let ts = t.as_str();
            let c = ts.get_char(i);
            if c == '*' || c == '?' || c == '[' || c == ']' {
                proof {
                    assert(ts@ == t@);
                    assert(c == t@[i as int]);
                    assert(is_glob_metachar(t@[i as int]));
                    let tv = trimmed(value@);
                    assert(tv[i as int] == t@[i as int]);
                    assert(exists|k: int| 0 <= k < tv.len() && is_glob_metachar(#[trigger] tv[k]));
                }
                return Err(StreamIdError::InvalidCharacter);
            }
            i = i + 1;
        }
        Ok(StreamId { value: t })
    }

    /// The identifier's text.
    pub fn as_str(&self) -> (s: &str)
        ensures
            s@ == self@,
    {
        self.value.as_str()
    }

    /// Whether two identifiers are the same.
    pub fn same_as(&self, other: &StreamId) -> (b: bool)
        ensures
            b == (self@ == other@),
    {
        self.value == other.value
    }
}

/// Version of a stream: the number of events written to it.
#[derive(Debug, Clone, Copy, PartialEq, Eq, PartialOrd, Ord, Hash, Structural)]
pub struct StreamVersion {
    value: u64,
}

impl View for StreamVersion {
    type V = u64;

    open spec fn view(&self) -> u64 {
        self.spec_value()
    }
}

impl StreamVersion {
    /// The version number.
    pub closed spec fn spec_value(&self) -> u64 {
        self.value
    }

    /// The version `value`.
    pub fn new(value: u64) -> (v: Self)
        ensures
            v@ == value,
    {
        StreamVersion { value }
    }

    /// The version number.
    pub fn into_inner(self) -> (v: u64)
        ensures
            v == self@,
    {
        self.value
    }

    /// The next version, saturating at `u64::MAX`.
    pub fn increment(self) -> (v: Self)
        ensures
            v@ == if self@ < u64::MAX {
                (self@ + 1) as u64
            } else {
                u64::MAX
            },
    {
        StreamVersion { value: self.value.saturating_add(1) }
    }
}

/// An event of a domain.
pub trait Event: Clone {
    /// The stream the event belongs to.
    fn stream_id(&self) -> StreamId;

    /// The name under which events of this type are stored.
    fn event_type_name() -> String;
}

/// The operation during which a store failed.
#[derive(Debug, Clone, Copy, PartialEq, Eq, Structural)]
pub enum Operation {
    ReadStream,
    AppendEvents,
}

/// Errors of event store operations.
#[derive(Debug, Clone, PartialEq, Eq)]
pub enum EventStoreError {
    /// A stream's version was not the expected one.
    VersionConflict,
    /// An event was appended to a stream that was not registered first.
    UndeclaredStream { stream_id: StreamId },
    /// A stream was registered twice with different expected versions.
    ConflictingExpectedVersions { stream_id: StreamId, first: StreamVersion, second: StreamVersion },
    /// The store could not perform an operation.
    StoreFailure { operation: Operation },
    /// Stored data could not be read back.
    DeserializationFailed(String),
    /// The store could not be reached.
    ConnectionFailed(String),
    /// The store is not configured as an operation needs.
    Configuration(String),
    /// An event could not be migrated between schema versions.
    SchemaEvolutionError(String),
    /// An event could not be serialized.
    SerializationFailed(String),
    /// An operation did not finish in time.
    Timeout(String),
    /// The store is temporarily unavailable.
    Unavailable(String),
    /// A transaction was rolled back.
    TransactionRollback(String),
    /// Reading or writing the store's medium failed.
    Io(String),
    /// The store failed in an unexpected way.
    Internal(String),
    /// A stream does not exist.
    StreamNotFound(StreamId),
    /// An event with the same identifier was already stored.
    DuplicateEventId(EventId),
}

/// The message of an event store error.
pub open spec fn store_error_text(e: EventStoreError) -> Seq<char> {
    match e {
        EventStoreError::VersionConflict => "version conflict"@,
        EventStoreError::UndeclaredStream { stream_id } => "stream "@ + stream_id@
            + " was not registered before appending"@,
        EventStoreError::ConflictingExpectedVersions { stream_id, first, second } =>
            "conflicting expected versions for stream "@ + stream_id@ + ": first="@ + decimal(first@ as nat)
                + ", second="@ + decimal(second@ as nat),
        EventStoreError::StoreFailure { operation } => match operation {
            Operation::ReadStream => "store failure during read_stream"@,
            Operation::AppendEvents => "store failure during append_events"@,
        },
        EventStoreError::DeserializationFailed(m) => "deserialization failed: "@ + m@,
        EventStoreError::ConnectionFailed(m) => "connection failed: "@ + m@,
        EventStoreError::Configuration(m) => "configuration error: "@ + m@,
        EventStoreError::SchemaEvolutionError(m) => "schema evolution error: "@ + m@,
        EventStoreError::SerializationFailed(m) => "serialization failed: "@ + m@,
        EventStoreError::Timeout(m) => "operation timed out: "@ + m@,
        EventStoreError::Unavailable(m) => "store unavailable: "@ + m@,
        EventStoreError::TransactionRollback(m) => "transaction rolled back: "@ + m@,
        EventStoreError::Io(m) => "i/o error: "@ + m@,
        EventStoreError::Internal(m) => "internal error: "@ + m@,
        EventStoreError::StreamNotFound(id) => "stream not found: "@ + id@,
        EventStoreError::DuplicateEventId(id) => "duplicate event id: "@ + uuid_text(id@),
    }
}

impl EventStoreError {
    /// The error's message, as [`store_error_text`] gives it.
    pub fn message(&self) -> (s: String)
        ensures
            s@ == store_error_text(*self),
    {
        match self {
            EventStoreError::VersionConflict => "version conflict".to_owned(),
            EventStoreError::UndeclaredStream { stream_id } => "stream ".to_owned().concat(
                stream_id.as_str(),
            ).concat(" was not registered before appending"),
            EventStoreError::ConflictingExpectedVersions { stream_id, first, second } => {
                let a = decimal_string(first.into_inner());
                let b = decimal_string(second.into_inner());
                "conflicting expected versions for stream ".to_owned().concat(
                    stream_id.as_str(),
                ).concat(": first=").concat(a.as_str()).concat(", second=").concat(b.as_str())
            },
            EventStoreError::StoreFailure { operation } => match operation {
                Operation::ReadStream => "store failure during read_stream".to_owned(),
                Operation::AppendEvents => "store failure during append_events".to_owned(),
            },
            EventStoreError::DeserializationFailed(m) => "deserialization failed: ".to_owned().concat(m.as_str()),
            EventStoreError::ConnectionFailed(m) => "connection failed: ".to_owned().concat(m.as_str()),
            EventStoreError::Configuration(m) => "configuration error: ".to_owned().concat(m.as_str()),
            EventStoreError::SchemaEvolutionError(m) => "schema evolution error: ".to_owned().concat(m.as_str()),
            EventStoreError::SerializationFailed(m) => "serialization failed: ".to_owned().concat(m.as_str()),
            EventStoreError::Timeout(m) => "operation timed out: ".to_owned().concat(m.as_str()),
            EventStoreError::Unavailable(m) => "store unavailable: ".to_owned().concat(m.as_str()),
            EventStoreError::TransactionRollback(m) => "transaction rolled back: ".to_owned().concat(m.as_str()),
            EventStoreError::Io(m) => "i/o error: ".to_owned().concat(m.as_str()),
            EventStoreError::Internal(m) => "internal error: ".to_owned().concat(m.as_str()),
            EventStoreError::StreamNotFound(id) => "stream not found: ".to_owned().concat(id.as_str()),
            EventStoreError::DuplicateEventId(id) => {
                let t = id.to_text();
                "duplicate event id: ".to_owned().concat(t.as_str())
            },
        }
    }
}

/// One event to write, with the stream it goes to and its type name.
#[derive(Debug)]
pub struct StreamWriteEntry<E> {
    pub stream_id: StreamId,
    pub event: E,
    pub event_type: String,
}

/// The expected versions of the streams a batch of writes registered, in
/// registration order.
pub open spec fn registered_version(
    expected: Seq<(Seq<char>, u64)>,
    id: Seq<char>,
) -> Option<u64>
    decreases expected.len(),
{
    if expected.len() == 0 {
        None
    } else if expected.last().0 == id {
        Some(expected.last().1)
    } else {
        registered_version(expected.drop_last(), id)
    }
}

/// A batch of writes for one command: the streams it expects at given
/// versions, and the events to append to them.
#[derive(Debug)]
pub struct StreamWrites<E> {
    expected: Vec<(StreamId, StreamVersion)>,
    entries: Vec<StreamWriteEntry<E>>,
}

impl<E> StreamWrites<E> {
    /// The registered streams with their expected versions, in registration
    /// order.
    pub closed spec fn spec_expected(&self) -> Seq<(Seq<char>, u64)> {
        self.expected@.map_values(|p: (StreamId, StreamVersion)| (p.0@, p.1@))
    }

    /// The streams of the events to append, in order.
    pub closed spec fn spec_entry_streams(&self) -> Seq<Seq<char>> {
        self.entries@.map_values(|e: StreamWriteEntry<E>| e.stream_id@)
    }

    /// The events to append, in order.
    pub closed spec fn spec_entry_events(&self) -> Seq<E> {
        self.entries@.map_values(|e: StreamWriteEntry<E>| e.event)
    }

    /// Each stream is registered once.
    pub closed spec fn wf(&self) -> bool {
        forall|i: int, j: int|
            0 <= i < j < self.expected@.len() ==> self.expected@[i].0@ != self.expected@[j].0@
    }

    /// An empty batch.
    pub fn new() -> (w: Self)
        ensures
            w.wf(),
            w.spec_expected().len() == 0,
            w.spec_entry_streams().len() == 0,
    {
        StreamWrites { expected: Vec::new(), entries: Vec::new() }
    }

    fn find_expected(&self, id: &StreamId) -> (r: Option<StreamVersion>)
        requires
            self.wf(),
        ensures
            match r {
                Some(v) => registered_version(self.spec_expected(), id@) == Some(v@),
                None => registered_version(self.spec_expected(), id@).is_none(),
            },
            r.is_some() <==> exists|i: int|
                0 <= i < self.spec_expected().len() && (#[trigger] self.spec_expected()[i]).0 == id@,
    {
        let n = self.expected.len();
        let mut i: usize = n;
        proof {
            assert(self.spec_expected().subrange(0, n as int) =~= self.spec_expected());
        }
        while i > 0
            invariant
                n == self.expected@.len(),
                i <= n,
                forall|j: int| i <= j < n ==> self.expected@[j].0@ != id@,
                registered_version(self.spec_expected(), id@) == registered_version(
                    self.spec_expected().subrange(0, i as int),
                    id@,
                ),
            decreases i,
        {
            let ghost sub = self.spec_expected().subrange(0, i as int);
            proof {
                assert(sub.drop_last() =~= self.spec_expected().subrange(0, i - 1));
            }
            if self.expected[i - 1].0.same_as(id) {
                return Some(self.expected[i - 1].1);
            }
            i = i - 1;
        }
        proof {
            assert(self.spec_expected().subrange(0, 0).len() == 0);
            assert forall|j: int| 0 <= j < self.spec_expected().len() implies (
            #[trigger] self.spec_expected()[j]).0 != id@ by {
                assert(self.expected@[j].0@ != id@);
            }
        }
        None
    }

    /// Registers `stream_id` with the version it is expected to have. A
    /// second registration with the same version changes nothing; one with
    /// another version is refused.
    pub fn register_stream(self, stream_id: StreamId, expected_version: StreamVersion) -> (r: Result<
        Self,
        EventStoreError,
    >)
        requires
            self.wf(),
        ensures
            match registered_version(self.spec_expected(), stream_id@) {
                Some(first) => if first == expected_version@ {
                    r matches Ok(w) && w.spec_expected() == self.spec_expected()
                        && w.spec_entry_streams() == self.spec_entry_streams()
                        && w.spec_entry_events() == self.spec_entry_events() && w.wf()
                } else {
                    r matches Err(EventStoreError::ConflictingExpectedVersions { stream_id: s, first: f, second: v })
                        && s@ == stream_id@ && f@ == first && v@ == expected_version@
                },
                None => r matches Ok(w) && w.spec_expected() == self.spec_expected().push(
                    (stream_id@, expected_version@),
                ) && w.spec_entry_streams() == self.spec_entry_streams() && w.spec_entry_events()
                    == self.spec_entry_events() && w.wf(),
            },
    {
        match self.find_expected(&stream_id) {
            Some(first) => {
                if first.into_inner() == expected_version.into_inner() {
                    Ok(self)
                } else {
                    Err(
                        EventStoreError::ConflictingExpectedVersions {
                            stream_id,
                            first,
                            second: expected_version,
                        },
                    )
                }
            },
            None => {
                let mut w = self;
                let ghost before = w.expected@;
                w.expected.push((stream_id, expected_version));
                proof {
                    assert(w.spec_expected() =~= self.spec_expected().push(
                        (stream_id@, expected_version@),
                    ));
                    assert forall|i: int, j: int|
                        0 <= i < j < w.expected@.len() implies w.expected@[i].0@
                        != w.expected@[j].0@ by {
                        if j == before.len() {
                            assert(self.spec_expected()[i].0 == before[i].0@);
                        }
                    }
                }
                Ok(w)
            },
        }
    }

    /// Adds `event` for `stream_id`, which must have been registered.
    pub fn append_to(self, stream_id: StreamId, event: E, event_type: String) -> (r: Result<
        Self,
        EventStoreError,
    >)
        requires
            self.wf(),
        ensures
            registered_version(self.spec_expected(), stream_id@).is_some() ==> (r matches Ok(w)
                && w.spec_expected() == self.spec_expected() && w.spec_entry_streams()
                == self.spec_entry_streams().push(stream_id@) && w.spec_entry_events()
                == self.spec_entry_events().push(event) && w.wf()),
            registered_version(self.spec_expected(), stream_id@).is_none() ==> (
            r matches Err(EventStoreError::UndeclaredStream { stream_id: s }) && s@ == stream_id@),
    {
        match self.find_expected(&stream_id) {
            Some(_) => {
                let mut w = self;
                w.entries.push(StreamWriteEntry { stream_id, event, event_type });
                proof {
                    assert(w.spec_entry_streams() =~= self.spec_entry_streams().push(stream_id@));
                    assert(w.spec_entry_events() =~= self.spec_entry_events().push(event));
                    assert(w.spec_expected() =~= self.spec_expected());
                }
                Ok(w)
            },
            None => Err(EventStoreError::UndeclaredStream { stream_id }),
        }
    }

    /// The registered streams with their expected versions, in registration
    /// order.
    pub fn expected_versions(&self) -> (v: &Vec<(StreamId, StreamVersion)>)
        ensures
            v@.map_values(|p: (StreamId, StreamVersion)| (p.0@, p.1@)) == self.spec_expected(),
    {
        &self.expected
    }

    /// The version expected of `stream_id`, if it was registered.
    pub fn expected_version(&self, stream_id: &StreamId) -> (v: Option<StreamVersion>)
        requires
            self.wf(),
        ensures
            match v {
                Some(x) => registered_version(self.spec_expected(), stream_id@) == Some(x@),
                None => registered_version(self.spec_expected(), stream_id@).is_none(),
            },
    {
        self.find_expected(stream_id)
    }

    /// The events to append, in order.
    pub fn into_entries(self) -> (v: Vec<StreamWriteEntry<E>>)
        ensures
            v@.map_values(|e: StreamWriteEntry<E>| e.stream_id@) == self.spec_entry_streams(),
            v@.map_values(|e: StreamWriteEntry<E>| e.event) == self.spec_entry_events(),
    {
        self.entries
    }
}

impl<E: Event> StreamWrites<E> {
    /// Adds `event` to the stream it names, which must have been registered.
    pub fn append(self, event: E) -> (r: Result<Self, EventStoreError>)
        requires
            self.wf(),
        ensures
            match r {
                Ok(w) => w.wf() && w.spec_expected() == self.spec_expected() && w.spec_entry_events()
                    == self.spec_entry_events().push(event) && exists|s: Seq<char>|
                    registered_version(self.spec_expected(), s).is_some()
                        && w.spec_entry_streams() == self.spec_entry_streams().push(s),
                Err(EventStoreError::UndeclaredStream { stream_id }) => registered_version(
                    self.spec_expected(),
                    stream_id@,
                ).is_none(),
                Err(_) => false,
            },
    {
        let stream_id = event.stream_id();
        let event_type = E::event_type_name();
        self.append_to(stream_id, event, event_type)
    }
}

} // verus!
