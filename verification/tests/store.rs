use eventcore::store::InMemoryEventStore;
use eventcore::types::{Event, EventId, EventStoreError, StreamId, StreamIdError, StreamVersion, StreamWrites};

#[derive(Debug, Clone, PartialEq, Eq)]
struct TestEvent {
    stream_id: StreamId,
    data: String,
}

impl Event for TestEvent {
    fn stream_id(&self) -> StreamId {
        self.stream_id.clone()
    }

    fn event_type_name() -> String {
        "TestEvent".to_string()
    }
}

#[test]
fn stream_writes_accepts_duplicate_stream_with_same_expected_version() {
    let stream_id = StreamId::try_new("duplicate-stream-same-version").expect("valid stream id");

    let first_event = TestEvent { stream_id: stream_id.clone(), data: "first-event".to_string() };
    let second_event = TestEvent { stream_id: stream_id.clone(), data: "second-event".to_string() };

    let writes_result = StreamWrites::new()
        .register_stream(stream_id.clone(), StreamVersion::new(0))
        .and_then(|writes| writes.register_stream(stream_id.clone(), StreamVersion::new(0)))
        .and_then(|writes| writes.append(first_event))
        .and_then(|writes| writes.append(second_event));

    assert!(writes_result.is_ok());
}

#[test]
fn stream_writes_rejects_duplicate_stream_with_conflicting_expected_versions() {
    let stream_id = StreamId::try_new("duplicate-stream-conflict").expect("valid stream id");

    let first_event = TestEvent { stream_id: stream_id.clone(), data: "first-event-conflict".to_string() };
    let second_event = TestEvent { stream_id: stream_id.clone(), data: "second-event-conflict".to_string() };

    let conflict = StreamWrites::new()
        .register_stream(stream_id.clone(), StreamVersion::new(0))
        .and_then(|writes| writes.append(first_event))
        .and_then(|writes| writes.register_stream(stream_id.clone(), StreamVersion::new(1)))
        .and_then(|writes| writes.append(second_event));

    let message = conflict.unwrap_err().message();

    assert_eq!(message, "conflicting expected versions for stream duplicate-stream-conflict: first=0, second=1");
}

#[test]
fn stream_writes_rejects_appends_for_unregistered_streams() {
    let stream_id = StreamId::try_new("unregistered-stream").expect("valid stream id");

    let event = TestEvent { stream_id: stream_id.clone(), data: "unregistered-event".to_string() };

    let error = StreamWrites::new().append(event).expect_err("append without prior registration should fail");

    assert!(matches!(
        error,
        EventStoreError::UndeclaredStream { stream_id: ref actual } if *actual == stream_id
    ));
}

#[test]
fn expected_versions_returns_registered_streams_and_versions() {
    let stream_a = StreamId::try_new("stream-a").expect("valid stream id");
    let stream_b = StreamId::try_new("stream-b").expect("valid stream id");

    let writes: StreamWrites<TestEvent> = StreamWrites::new()
        .register_stream(stream_a.clone(), StreamVersion::new(0))
        .and_then(|w| w.register_stream(stream_b.clone(), StreamVersion::new(5)))
        .expect("registration should succeed");

    let versions = writes.expected_versions();

    assert_eq!(versions.len(), 2);
    assert_eq!(writes.expected_version(&stream_a), Some(StreamVersion::new(0)));
    assert_eq!(writes.expected_version(&stream_b), Some(StreamVersion::new(5)));
}

#[test]
fn stream_id_rejects_asterisk_metacharacter() {
    let result = StreamId::try_new("account-*");
    assert!(result.is_err(), "StreamId should reject asterisk glob metacharacter");
}

#[test]
fn stream_id_rejects_question_mark_metacharacter() {
    let result = StreamId::try_new("account-?");
    assert!(result.is_err(), "StreamId should reject question mark glob metacharacter");
}

#[test]
fn stream_id_rejects_open_bracket_metacharacter() {
    let result = StreamId::try_new("account-[");
    assert!(result.is_err(), "StreamId should reject open bracket glob metacharacter");
}

#[test]
fn stream_id_rejects_close_bracket_metacharacter() {
    let result = StreamId::try_new("account-]");
    assert!(result.is_err(), "StreamId should reject close bracket glob metacharacter");
}

#[test]
fn stream_id_trims_and_bounds_length() {
    assert_eq!(StreamId::try_new("  orders-1 \t").unwrap().as_str(), "orders-1");
    assert_eq!(StreamId::try_new("   ").unwrap_err(), StreamIdError::Empty);
    let long = "x".repeat(256);
    assert_eq!(StreamId::try_new(&long).unwrap_err(), StreamIdError::TooLong);
    assert!(StreamId::try_new(&"x".repeat(255)).is_ok());
    assert_eq!(StreamId::try_new("a*b").unwrap_err(), StreamIdError::InvalidCharacter);
}

#[test]
fn store_appends_atomically_and_reads_back() {
    let mut store = InMemoryEventStore::new();
    let a = StreamId::try_new("account-a").unwrap();
    let b = StreamId::try_new("account-b").unwrap();
    let e1 = TestEvent { stream_id: a.clone(), data: "opened".to_string() };
    let e2 = TestEvent { stream_id: b.clone(), data: "opened".to_string() };
    let e3 = TestEvent { stream_id: a.clone(), data: "deposited".to_string() };

    let writes = StreamWrites::new()
        .register_stream(a.clone(), StreamVersion::new(0))
        .and_then(|w| w.register_stream(b.clone(), StreamVersion::new(0)))
        .and_then(|w| w.append(e1.clone()))
        .and_then(|w| w.append(e2.clone()))
        .and_then(|w| w.append(e3.clone()))
        .unwrap();
    assert!(store.append_events(writes).is_ok());
    assert_eq!(store.stream_events(&a), &[e1.clone(), e3.clone()]);
    assert_eq!(store.stream_events(&b), &[e2.clone()]);
    assert_eq!(store.stream_version(&a), StreamVersion::new(2));
    assert_eq!(store.stream_version(&b), StreamVersion::new(1));

    let stale = StreamWrites::new()
        .register_stream(a.clone(), StreamVersion::new(1))
        .and_then(|w| w.append(TestEvent { stream_id: a.clone(), data: "late".to_string() }))
        .unwrap();
    assert_eq!(store.append_events(stale), Err(EventStoreError::VersionConflict));
    assert_eq!(store.stream_events(&a).len(), 2);
    assert_eq!(store.stream_version(&a), StreamVersion::new(2));

    let unknown = StreamId::try_new("never-written").unwrap();
    assert!(store.stream_events(&unknown).is_empty());
    assert_eq!(store.stream_version(&unknown), StreamVersion::new(0));
}

#[test]
fn store_error_messages() {
    let id = StreamId::try_new("s").unwrap();
    assert_eq!(EventStoreError::VersionConflict.message(), "version conflict");
    assert_eq!(
        EventStoreError::UndeclaredStream { stream_id: id }.message(),
        "stream s was not registered before appending"
    );
}

#[test]
fn event_ids_render_as_hyphenated_lowercase_hex() {
    let id = EventId::from_u128(0x0123_4567_89ab_cdef_0123_4567_89ab_cdef);
    assert_eq!(id.to_text(), "01234567-89ab-cdef-0123-456789abcdef");
    assert_eq!(EventId::from_u128(0).to_text(), "00000000-0000-0000-0000-000000000000");
}

#[test]
fn stream_ids_trim_unicode_whitespace() {
    let id = StreamId::try_new("\u{3000}\u{2003}orders-1\u{00A0}\t").unwrap();
    assert_eq!(id.as_str(), "orders-1");
    assert!(StreamId::try_new("\u{2028}\u{205F}").is_err());
}

#[test]
fn fresh_event_ids_are_ordered() {
    let first = EventId::new();
    let second = EventId::new();
    let third = EventId::new();
    assert!(first.as_u128() < second.as_u128());
    assert!(second.as_u128() < third.as_u128());
}
