use eventcore::subscription::{SubscriptionError, SubscriptionName, SubscriptionOptions};
use eventcore::subscription_adapter::{create_typed_subscription, TypedSubscriptionAdapter};
use eventcore::types::EventStoreError;

struct MockEventStore;

struct TestProcessor(u32);

fn refusal_message(r: Result<impl Sized, SubscriptionError>) -> String {
    match r {
        Err(SubscriptionError::EventStore(EventStoreError::Configuration(m))) => m,
        Err(other) => panic!("unexpected error {}", other.message()),
        Ok(_) => panic!("call was not refused"),
    }
}

#[test]
fn test_adapter_lifecycle() {
    let mut adapter: TypedSubscriptionAdapter<MockEventStore, TestProcessor> =
        TypedSubscriptionAdapter::new(MockEventStore);

    let name = SubscriptionName::try_new("test-adapter").unwrap();
    let options = SubscriptionOptions::CatchUpFromBeginning;
    let processor = TestProcessor(1);

    let handed_back = adapter.start(name, options, processor).ok().unwrap();
    assert_eq!(handed_back.0, 1);
}

#[test]
fn test_invalid_transitions() {
    let mut adapter: TypedSubscriptionAdapter<MockEventStore, TestProcessor> =
        TypedSubscriptionAdapter::new(MockEventStore);

    assert!(adapter.pause().is_err());
    assert!(adapter.resume().is_err());
}

#[test]
fn full_lifecycle_through_the_adapter() {
    let mut adapter = create_typed_subscription::<MockEventStore, TestProcessor>(MockEventStore);
    adapter
        .start(SubscriptionName::try_new("orders").unwrap(), SubscriptionOptions::LiveOnly, TestProcessor(7))
        .ok()
        .unwrap();
    assert!(adapter.get_position().ok().unwrap().is_none());
    adapter.pause().ok().unwrap();
    adapter.resume().ok().unwrap();
    adapter.stop().ok().unwrap();
    assert!(adapter.get_position().ok().unwrap().is_none());
    assert_eq!(
        refusal_message(adapter.start(
            SubscriptionName::try_new("orders").unwrap(),
            SubscriptionOptions::LiveOnly,
            TestProcessor(8)
        )),
        "Cannot start subscription from current state"
    );
}

#[test]
fn refused_calls_leave_the_adapter_as_it_was() {
    let mut adapter: TypedSubscriptionAdapter<MockEventStore, TestProcessor> =
        TypedSubscriptionAdapter::new(MockEventStore);
    assert_eq!(refusal_message(adapter.pause()), "Cannot pause subscription from current state");
    assert_eq!(refusal_message(adapter.resume()), "Cannot resume subscription from current state");
    let handed_back = adapter
        .start(SubscriptionName::try_new("late").unwrap(), SubscriptionOptions::LiveOnly, TestProcessor(1))
        .ok()
        .unwrap();
    assert_eq!(handed_back.0, 1);
    assert_eq!(refusal_message(adapter.resume()), "Cannot resume subscription from current state");
    adapter.pause().ok().unwrap();
}

#[test]
fn stopping_a_new_adapter_changes_nothing() {
    let mut adapter: TypedSubscriptionAdapter<MockEventStore, TestProcessor> =
        TypedSubscriptionAdapter::new(MockEventStore);
    assert!(adapter.stop().is_ok());
    let name = SubscriptionName::try_new("x").unwrap();
    assert!(matches!(adapter.load_checkpoint(&name), Ok(None)));
    assert!(adapter.start(name, SubscriptionOptions::LiveOnly, TestProcessor(1)).is_ok());
}
