use eventcore::manager::ProjectionCheckpoint;
use eventcore::protocol::{ProjectionProtocol, ProtocolError, Setup};
use eventcore::subscription::SubscriptionOptions;
use eventcore::types::{EventId, StreamId};

#[test]
fn phantom_types_prevent_invalid_transitions() {}

#[test]
fn protocol_walks_through_its_phases() {
    let setup: ProjectionProtocol<&str, Vec<u32>, &str, Setup> = ProjectionProtocol::new("orders");
    let refused = ProjectionProtocol::<&str, Vec<u32>, &str, Setup>::new("orders").start_processing(vec![]);
    assert!(matches!(refused, Err(ProtocolError::Internal(ref m)) if m == "Event store not configured"));

    let no_state = ProjectionProtocol::<&str, Vec<u32>, &str, Setup>::new("orders")
        .with_event_store("store")
        .start_processing(vec![]);
    assert!(matches!(
        no_state,
        Err(ProtocolError::Internal(ref m)) if m == "State not initialized - call load_checkpoint first"
    ));

    let loaded = setup.with_event_store("store").with_loaded(None, vec![1, 2]);
    let (processing, options) = loaded.start_processing(vec![]).ok().unwrap();
    assert!(matches!(options, SubscriptionOptions::AllStreams { from_position: None }));
    assert_eq!(processing.get_state(), Some(&vec![1, 2]));

    let mut checkpointing = processing.prepare_checkpoint();
    let id = EventId::from_u128(7);
    checkpointing.update_checkpoint(id);
    assert_eq!(checkpointing.checkpoint().last_event_id, Some(id));
    let back = checkpointing.resume_processing();
    let shutdown = back.prepare_checkpoint().prepare_shutdown();
    assert_eq!(shutdown.final_checkpoint().last_event_id, Some(id));
    assert_eq!(shutdown.final_state(), Some(vec![1, 2]));
}

#[test]
fn specific_streams_resume_from_the_checkpoint() {
    let id = EventId::from_u128(9);
    let checkpoint = ProjectionCheckpoint::initial().with_event_id(id);
    let stream = StreamId::try_new("orders-1").unwrap();
    let protocol = ProjectionProtocol::<(), u8, (), Setup>::new(())
        .with_event_store(())
        .with_loaded(Some(checkpoint), 0);
    let (_, options) = protocol.start_processing(vec![stream.clone()]).ok().unwrap();
    match options {
        SubscriptionOptions::SpecificStreams { streams, from_position } => {
            assert_eq!(streams, vec![stream]);
            assert_eq!(from_position, Some(id));
        },
        _ => panic!("expected specific streams"),
    }
}

#[test]
fn processing_accounts_for_whole_batches() {
    let protocol = ProjectionProtocol::<&str, u8, &str, Setup>::new("orders")
        .with_event_store("store")
        .with_loaded(None, 0);
    let (mut processing, _) = protocol.start_processing(vec![]).ok().unwrap();
    assert_eq!(processing.process_events(10).ok(), Some(10));
    assert_eq!(processing.process_events(0).ok(), Some(0));
    assert_eq!(processing.get_state(), Some(&0));
}
