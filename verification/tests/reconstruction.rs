use eventcore::reconstruction::{
    reconstruct_state, reconstruct_state_from, validate_events_for_reconstruction, Command,
    ReconstructionError, ReconstructionStats, StoredEvent,
};
use eventcore::types::{EventId, StreamId};

#[derive(Debug, Clone)]
struct TestCommand;

#[derive(Debug, Clone, PartialEq, Eq, Default)]
struct TestState {
    pub counter: i32,
    pub values: Vec<String>,
}

#[derive(Debug, Clone, PartialEq, Eq)]
enum TestEvent {
    Increment(i32),
    AddValue(String),
    Reset,
}

impl Command for TestCommand {
    type State = TestState;
    type Event = TestEvent;

    fn next_state(&self, state: TestState, event: StoredEvent<TestEvent>) -> TestState {
        let mut next = state;
        self.apply(&mut next, &event);
        next
    }

    fn apply(&self, state: &mut TestState, stored_event: &StoredEvent<TestEvent>) {
        match &stored_event.payload {
            TestEvent::Increment(value) => state.counter = state.counter.saturating_add(*value),
            TestEvent::AddValue(value) => state.values.push(value.clone()),
            TestEvent::Reset => {
                state.counter = 0;
                state.values.clear();
            }
        }
    }
}

fn create_test_event(stream_id: &StreamId, version: u64, event: TestEvent) -> StoredEvent<TestEvent> {
    create_event_at(stream_id, version, version as i64 * 1_000, event)
}

fn create_event_at(stream_id: &StreamId, version: u64, timestamp: i64, event: TestEvent) -> StoredEvent<TestEvent> {
    StoredEvent {
        event_id: EventId::new(),
        stream_id: stream_id.clone(),
        event_version: version,
        timestamp,
        payload: event,
    }
}

#[test]
fn reconstruct_state_applies_events_in_order() {
    let command = TestCommand;
    let stream_id = StreamId::try_new("test-stream").unwrap();

    let events = vec![
        create_test_event(&stream_id, 1, TestEvent::Increment(5)),
        create_test_event(&stream_id, 2, TestEvent::AddValue("hello".to_string())),
        create_test_event(&stream_id, 3, TestEvent::Increment(3)),
        create_test_event(&stream_id, 4, TestEvent::AddValue("world".to_string())),
    ];
    let streams = vec![stream_id];

    let final_state = reconstruct_state(&command, &events, &streams);

    assert_eq!(final_state.counter, 8);
    assert_eq!(final_state.values, vec!["hello".to_string(), "world".to_string()]);
}

#[test]
fn reconstruct_state_with_empty_events() {
    let command = TestCommand;
    let stream_id = StreamId::try_new("test-stream").unwrap();
    let streams = vec![stream_id];

    let final_state = reconstruct_state(&command, &[], &streams);

    assert_eq!(final_state.counter, 0);
    assert!(final_state.values.is_empty());
}

#[test]
fn reconstruct_state_with_reset_event() {
    let command = TestCommand;
    let stream_id = StreamId::try_new("test-stream").unwrap();

    let events = vec![
        create_test_event(&stream_id, 1, TestEvent::Increment(10)),
        create_test_event(&stream_id, 2, TestEvent::AddValue("test".to_string())),
        create_test_event(&stream_id, 3, TestEvent::Reset),
        create_test_event(&stream_id, 4, TestEvent::Increment(2)),
    ];
    let streams = vec![stream_id];

    let final_state = reconstruct_state(&command, &events, &streams);

    assert_eq!(final_state.counter, 2);
    assert!(final_state.values.is_empty());
}

#[test]
fn validate_events_for_reconstruction_success() {
    let stream_id = StreamId::try_new("test-stream").unwrap();
    let events = vec![create_test_event(&stream_id, 1, TestEvent::Increment(1))];
    let expected_streams = vec![stream_id];

    let result = validate_events_for_reconstruction(&events, &expected_streams);
    assert!(result.is_ok());
}

#[test]
fn validate_events_for_reconstruction_unexpected_stream() {
    let stream_id1 = StreamId::try_new("stream-1").unwrap();
    let stream_id2 = StreamId::try_new("stream-2").unwrap();

    let events = vec![
        create_test_event(&stream_id1, 1, TestEvent::Increment(1)),
        create_test_event(&stream_id2, 1, TestEvent::Increment(1)),
    ];
    let expected_streams = vec![stream_id1];

    let result = validate_events_for_reconstruction(&events, &expected_streams);
    assert!(matches!(result, Err(ReconstructionError::UnexpectedStream { .. })));
}

#[test]
fn reconstruction_stats_calculation() {
    let stream_id1 = StreamId::try_new("stream-1").unwrap();
    let stream_id2 = StreamId::try_new("stream-2").unwrap();

    let events = vec![
        create_test_event(&stream_id1, 1, TestEvent::Increment(1)),
        create_test_event(&stream_id1, 2, TestEvent::Increment(2)),
        create_test_event(&stream_id2, 1, TestEvent::AddValue("test".to_string())),
    ];
    let streams = vec![stream_id1.clone(), stream_id2.clone()];

    let stats = ReconstructionStats::from_stream_data(&events, &streams);

    assert_eq!(stats.events_processed, 3);
    assert_eq!(stats.streams_count, 2);
    assert_eq!(stats.events_per_stream[0], (stream_id1, 2));
    assert_eq!(stats.events_per_stream[1], (stream_id2, 1));
    assert!(stats.time_span.is_some());
}

#[test]
fn reconstruction_stats_empty_events() {
    let stream_id = StreamId::try_new("test-stream").unwrap();
    let events: Vec<StoredEvent<TestEvent>> = vec![];
    let streams = vec![stream_id.clone()];

    let stats = ReconstructionStats::from_stream_data(&events, &streams);

    assert_eq!(stats.events_processed, 0);
    assert_eq!(stats.streams_count, 1);
    assert_eq!(stats.events_per_stream[0], (stream_id, 0));
    assert!(stats.time_span.is_none());
}

#[test]
fn reconstruction_stats_time_span_is_latest_minus_earliest() {
    let stream_id = StreamId::try_new("timed").unwrap();
    let events = vec![
        create_event_at(&stream_id, 1, 5_000, TestEvent::Increment(1)),
        create_event_at(&stream_id, 2, 2_000, TestEvent::Increment(1)),
        create_event_at(&stream_id, 3, 9_000, TestEvent::Increment(1)),
    ];
    let stats = ReconstructionStats::from_stream_data(&events, &[stream_id]);
    assert_eq!(stats.time_span, Some(7_000));
}

#[test]
fn validation_reports_first_unexpected_stream_and_expected_list() {
    let expected = StreamId::try_new("expected").unwrap();
    let other = StreamId::try_new("other").unwrap();
    let third = StreamId::try_new("third").unwrap();
    let events = vec![
        create_test_event(&expected, 1, TestEvent::Reset),
        create_test_event(&other, 1, TestEvent::Reset),
        create_test_event(&third, 1, TestEvent::Reset),
    ];
    match validate_events_for_reconstruction(&events, &[expected.clone()]) {
        Err(ReconstructionError::UnexpectedStream { stream_id, expected_streams }) => {
            assert_eq!(stream_id, other);
            assert_eq!(expected_streams, vec![expected]);
        }
        other => panic!("unexpected result {:?}", other),
    }
}

#[test]
fn folding_in_two_parts_equals_folding_at_once() {
    let command = TestCommand;
    let stream_id = StreamId::try_new("split").unwrap();
    let events = vec![
        create_test_event(&stream_id, 1, TestEvent::Increment(4)),
        create_test_event(&stream_id, 2, TestEvent::AddValue("a".to_string())),
        create_test_event(&stream_id, 3, TestEvent::Increment(-1)),
    ];
    let at_once = reconstruct_state(&command, &events, &[stream_id.clone()]);
    let first = reconstruct_state(&command, &events[..1], &[stream_id.clone()]);
    let in_parts = reconstruct_state_from(&command, first, &events[1..]);
    assert_eq!(at_once, in_parts);
    assert_eq!(at_once, TestState { counter: 3, values: vec!["a".to_string()] });
}

#[test]
fn reconstruct_state_applies_events_by_ascending_id() {
    let command = TestCommand;
    let stream_id = StreamId::try_new("test-stream").unwrap();
    let with_id = |id: u128, event: TestEvent| StoredEvent {
        event_id: EventId::from_u128(id),
        stream_id: stream_id.clone(),
        event_version: 1,
        timestamp: 0,
        payload: event,
    };
    let events = vec![
        with_id(30, TestEvent::AddValue("third".to_string())),
        with_id(10, TestEvent::AddValue("first".to_string())),
        with_id(20, TestEvent::Reset),
        with_id(20, TestEvent::AddValue("second".to_string())),
    ];
    let state = reconstruct_state(&command, &events, &[stream_id.clone()]);
    assert_eq!(state.values, vec!["second".to_string(), "third".to_string()]);
}
