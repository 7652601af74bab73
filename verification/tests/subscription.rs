use eventcore::manager::ProjectionCheckpoint;
use eventcore::subscription::{
    advance_position, is_already_processed, position_from_checkpoint, projection_subscription_name,
    Checkpoint, SubscriptionError, SubscriptionName, SubscriptionNameError, SubscriptionPosition,
};
use eventcore::types::{EventId, StreamId};

#[test]
fn test_subscription_name_validation() {
    assert!(SubscriptionName::try_new("valid_name").is_ok());
    assert!(SubscriptionName::try_new("projection-1").is_ok());
    assert!(SubscriptionName::try_new("MyProjection").is_ok());

    assert!(SubscriptionName::try_new("").is_err());
    assert!(SubscriptionName::try_new("   ").is_err());
    assert!(SubscriptionName::try_new(&"a".repeat(256)).is_err());
}

#[test]
fn subscription_name_is_trimmed_and_bounded() {
    let name = SubscriptionName::try_new("  padded  ").expect("valid");
    assert_eq!(name.as_str(), "padded");
    assert_eq!(SubscriptionName::try_new(&"b".repeat(255)).map(|n| n.as_str().len()), Ok(255));
    assert_eq!(SubscriptionName::try_new("\t\n").unwrap_err(), SubscriptionNameError::NotEmptyViolated);
    assert_eq!(
        SubscriptionName::try_new(&"c".repeat(300)).unwrap_err(),
        SubscriptionNameError::LenCharMaxViolated
    );
    assert_eq!(projection_subscription_name("orders").expect("valid").as_str(), "projection-orders");
}

#[test]
fn update_checkpoint_then_get_returns_it() {
    let stream = StreamId::try_new("orders").unwrap();
    let other = StreamId::try_new("customers").unwrap();
    let mut position = SubscriptionPosition::new(EventId::from_u128(10));
    let checkpoint = Checkpoint::new(EventId::from_u128(7), 3);
    position.update_checkpoint(stream.clone(), checkpoint);
    assert_eq!(position.get_checkpoint(&stream), Some(&checkpoint));
    assert_eq!(position.get_checkpoint(&other), None);

    let later = Checkpoint::new(EventId::from_u128(9), 4);
    position.update_checkpoint(stream.clone(), later);
    assert_eq!(position.get_checkpoint(&stream), Some(&later));
    assert_eq!(position.stream_checkpoints().len(), 1);
    assert_eq!(position.last_event_id(), EventId::from_u128(10));
}

#[test]
fn processed_events_are_recognised_by_id() {
    let position = Some(SubscriptionPosition::new(EventId::from_u128(100)));
    assert!(is_already_processed(&position, EventId::from_u128(100)));
    assert!(is_already_processed(&position, EventId::from_u128(99)));
    assert!(!is_already_processed(&position, EventId::from_u128(101)));
    assert!(!is_already_processed(&None, EventId::from_u128(1)));
}

#[test]
fn advancing_records_event_and_stream() {
    let stream = StreamId::try_new("orders").unwrap();
    let position = advance_position(None, EventId::from_u128(5), stream.clone(), 2);
    assert_eq!(position.last_event_id(), EventId::from_u128(5));
    assert_eq!(position.get_checkpoint(&stream), Some(&Checkpoint::new(EventId::from_u128(5), 2)));

    let projection = position.to_projection_checkpoint();
    assert_eq!(projection.last_event_id, Some(EventId::from_u128(5)));
    assert_eq!(projection.stream_positions, vec![(stream.clone(), EventId::from_u128(5))]);

    let restored = position_from_checkpoint(&projection).expect("has a last event");
    assert_eq!(restored.last_event_id(), EventId::from_u128(5));
    assert_eq!(restored.get_checkpoint(&stream), Some(&Checkpoint::new(EventId::from_u128(5), 0)));

    let empty = ProjectionCheckpoint { last_event_id: None, stream_positions: vec![] };
    assert!(position_from_checkpoint(&empty).is_none());
}

#[test]
fn subscription_error_messages() {
    assert_eq!(SubscriptionError::Cancelled.message(), "Subscription cancelled");
    assert_eq!(
        SubscriptionError::CheckpointSaveFailed("disk full".to_string()).message(),
        "Failed to save checkpoint: disk full"
    );
    assert_eq!(
        SubscriptionError::CheckpointLoadFailed("missing".to_string()).message(),
        "Failed to load checkpoint: missing"
    );
}
