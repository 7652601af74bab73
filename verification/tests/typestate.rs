use eventcore::subscription::{SubscriptionError, SubscriptionName, SubscriptionOptions};
use eventcore::typestate::{Configured, TypedSubscription, Uninitialized};
use eventcore::types::EventStoreError;

struct Store;

struct Processor(&'static str);

#[test]
fn subscription_lifecycle_type_safety() {
    let subscription: TypedSubscription<Store, Processor, Uninitialized> = TypedSubscription::new(Store);
    assert!(subscription.event_store().is_some());
    let configured: TypedSubscription<Store, Processor, Configured> = subscription.configure(
        SubscriptionName::try_new("orders-projection").unwrap(),
        SubscriptionOptions::LiveOnly,
        Processor("orders"),
    );
    assert!(matches!(configured.options(), Some(SubscriptionOptions::LiveOnly)));

    let (running, processor) = configured.start().ok().expect("configured subscription starts");
    assert_eq!(processor.0, "orders");
    assert!(running.get_position().is_none());

    let paused = running.pause();
    let running = paused.resume();
    let stopped = running.stop();
    assert_eq!(stopped.name().map(|n| n.as_str().to_string()), Some("orders-projection".to_string()));
    assert!(stopped.get_final_position().is_none());
}

#[test]
fn paused_subscription_can_stop() {
    let configured = TypedSubscription::<Store, Processor, Uninitialized>::new(Store).configure(
        SubscriptionName::try_new("s").unwrap(),
        SubscriptionOptions::CatchUpFromBeginning,
        Processor("p"),
    );
    let (running, _) = configured.start().ok().unwrap();
    let stopped = running.pause().stop();
    assert!(stopped.name().is_some());
}

#[test]
fn start_errors_name_what_is_missing() {
    let error = SubscriptionError::EventStore(EventStoreError::ConnectionFailed("No event store configured".to_string()));
    assert_eq!(error.message(), "Event store error: connection failed: No event store configured");
}
