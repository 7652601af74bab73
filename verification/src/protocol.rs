//! The phases of a projection's life as types: set up, processing,
//! checkpointing and shut down. Each phase offers only the operations that
//! are valid in it; the I/O of each step is performed by the caller, who
//! hands the outcomes in.

use std::marker::PhantomData;
use vstd::prelude::*;

use crate::manager::ProjectionCheckpoint;
use crate::subscription::SubscriptionOptions;
use crate::types::{EventId, StreamId};

verus! {

/// A phase of the protocol.
pub trait ProtocolPhase {}

/// Being set up: the checkpoint and state are loaded.
#[derive(Debug)]
pub struct Setup;

impl ProtocolPhase for Setup {}

/// Processing events.
#[derive(Debug)]
pub struct Processing;

impl ProtocolPhase for Processing {}

/// Saving a checkpoint.
#[derive(Debug)]
pub struct Checkpointing;

impl ProtocolPhase for Checkpointing {}

/// Shutting down.
#[derive(Debug)]
pub struct Shutdown;

impl ProtocolPhase for Shutdown {}

/// Why the protocol cannot go on.
#[derive(Debug)]
pub enum ProtocolError {
    /// A precondition of the step is missing; the message says which.
    Internal(String),
}

/// A projection `P` with state `St`, reading from an event store `ES`, in
/// phase `Phase`.
pub struct ProjectionProtocol<P, St, ES, Phase> {
    projection: P,
    state: Option<St>,
    checkpoint: ProjectionCheckpoint,
    event_store: Option<ES>,
    phase: PhantomData<Phase>,
}

impl<P, St, ES, Phase> ProjectionProtocol<P, St, ES, Phase> {
    /// The projection.
    pub closed spec fn spec_projection(&self) -> P {
        self.projection
    }

    /// The state, once loaded.
    pub closed spec fn spec_state(&self) -> Option<St> {
        self.state
    }

    /// The checkpoint.
    pub closed spec fn spec_checkpoint(&self) -> ProjectionCheckpoint {
        self.checkpoint
    }

    /// The event store, once configured.
    pub closed spec fn spec_store(&self) -> Option<ES> {
        self.event_store
    }

    /// The projection.
    pub fn projection(&self) -> (p: &P)
        ensures
            *p == self.spec_projection(),
    {
        &self.projection
    }

    fn into_phase<Next>(self) -> (r: ProjectionProtocol<P, St, ES, Next>)
        ensures
            r.spec_projection() == self.spec_projection(),
            r.spec_state() == self.spec_state(),
            r.spec_checkpoint() == self.spec_checkpoint(),
            r.spec_store() == self.spec_store(),
    {
        ProjectionProtocol {
            projection: self.projection,
            state: self.state,
            checkpoint: self.checkpoint,
            event_store: self.event_store,
            phase: PhantomData,
        }
    }
}

/// The subscription a projection interested in `streams` starts with, from
/// the checkpoint's last event: all streams when none is named.
pub open spec fn subscription_for(streams: Seq<StreamId>, from: Option<EventId>, options: SubscriptionOptions) -> bool {
    if streams.len() == 0 {
        options == SubscriptionOptions::AllStreams { from_position: from }
    } else {
        options matches SubscriptionOptions::SpecificStreams { streams: s, from_position: f } && s@ == streams && f == from
    }
}

impl<P, St, ES> ProjectionProtocol<P, St, ES, Setup> {
    /// A protocol for `projection`, without state or event store, at the
    /// initial checkpoint.
    pub fn new(projection: P) -> (r: Self)
        ensures
            r.spec_projection() == projection,
            r.spec_state().is_none(),
            r.spec_store().is_none(),
            r.spec_checkpoint().last_event_id.is_none(),
    {
        ProjectionProtocol {
            projection,
            state: None,
            checkpoint: ProjectionCheckpoint::initial(),
            event_store: None,
            phase: PhantomData,
        }
    }

    /// Configures the event store.
    pub fn with_event_store(self, event_store: ES) -> (r: Self)
        ensures
            r.spec_store() == Some(event_store),
            r.spec_projection() == self.spec_projection(),
            r.spec_state() == self.spec_state(),
            r.spec_checkpoint() == self.spec_checkpoint(),
    {
        let mut r = self;
        r.event_store = Some(event_store);
        r
    }

    /// Takes in what loading gave: the stored checkpoint, or the initial one
    /// when none could be loaded, and the initialized state.
    pub fn with_loaded(self, checkpoint: Option<ProjectionCheckpoint>, state: St) -> (r: Self)
        ensures
            r.spec_state() == Some(state),
            checkpoint matches Some(c) ==> r.spec_checkpoint() == c,
            checkpoint is None ==> r.spec_checkpoint().last_event_id.is_none(),
            r.spec_projection() == self.spec_projection(),
            r.spec_store() == self.spec_store(),
    {
        let mut r = self;
        r.checkpoint = match checkpoint {
            Some(c) => c,
            None => ProjectionCheckpoint::initial(),
        };
        r.state = Some(state);
        r
    }

    /// Moves to processing, given the streams the projection is interested
    /// in: refused without an event store or without a loaded state;
    /// otherwise the subscription to open comes with the processing phase.
    pub fn start_processing(self, streams: Vec<StreamId>) -> (r: Result<
        (ProjectionProtocol<P, St, ES, Processing>, SubscriptionOptions),
        ProtocolError,
    >)
        ensures
            self.spec_store().is_none() ==> (r matches Err(ProtocolError::Internal(m)) && m@ == "Event store not configured"@),
            self.spec_store().is_some() && self.spec_state().is_none() ==> (r matches Err(ProtocolError::Internal(m))
                && m@ == "State not initialized - call load_checkpoint first"@),
            self.spec_store().is_some() && self.spec_state().is_some() ==> (r matches Ok((p, options)) && p.spec_projection()
                == self.spec_projection() && p.spec_state() == self.spec_state() && p.spec_store() == self.spec_store()
                && p.spec_checkpoint() == self.spec_checkpoint() && subscription_for(
                streams@,
                self.spec_checkpoint().last_event_id,
                options,
            )),
    {
        if self.event_store.is_none() {
            return Err(ProtocolError::Internal("Event store not configured".to_owned()));
        }
        if self.state.is_none() {
            return Err(ProtocolError::Internal("State not initialized - call load_checkpoint first".to_owned()));
        }
        let from = self.checkpoint.last_event_id;
        let options = if streams.len() == 0 {
            SubscriptionOptions::AllStreams { from_position: from }
        } else {
            SubscriptionOptions::SpecificStreams { streams, from_position: from }
        };
        Ok((self.into_phase(), options))
    }
}

impl<P, St, ES> ProjectionProtocol<P, St, ES, Processing> {
    /// Accounts for a batch of up to `batch_size` events: refused when no
    /// state is loaded; otherwise the whole batch counts as processed.
    pub fn process_events(&mut self, batch_size: usize) -> (r: Result<usize, ProtocolError>)
        ensures
            final(self).spec_projection() == old(self).spec_projection(),
            final(self).spec_state() == old(self).spec_state(),
            final(self).spec_checkpoint() == old(self).spec_checkpoint(),
            final(self).spec_store() == old(self).spec_store(),
            old(self).spec_state().is_none() ==> (r matches Err(ProtocolError::Internal(m)) && m@
                == "State not available in processing phase"@),
            old(self).spec_state().is_some() ==> r == Ok::<usize, ProtocolError>(batch_size),
    {
        if self.state.is_none() {
            return Err(ProtocolError::Internal("State not available in processing phase".to_owned()));
        }
        Ok(batch_size)
    }

    /// Moves to checkpointing.
    pub fn prepare_checkpoint(self) -> (r: ProjectionProtocol<P, St, ES, Checkpointing>)
        ensures
            r.spec_projection() == self.spec_projection(),
            r.spec_state() == self.spec_state(),
            r.spec_checkpoint() == self.spec_checkpoint(),
            r.spec_store() == self.spec_store(),
    {
        self.into_phase()
    }

    /// The current state.
    pub fn get_state(&self) -> (s: Option<&St>)
        ensures
            match s {
                Some(x) => self.spec_state() == Some(*x),
                None => self.spec_state().is_none(),
            },
    {
        self.state.as_ref()
    }
}

impl<P, St, ES> ProjectionProtocol<P, St, ES, Checkpointing> {
    /// Moves the checkpoint to `event_id`.
    pub fn update_checkpoint(&mut self, event_id: EventId)
        ensures
            final(self).spec_checkpoint().last_event_id == Some(event_id),
            final(self).spec_checkpoint().stream_positions == old(self).spec_checkpoint().stream_positions,
            final(self).spec_projection() == old(self).spec_projection(),
            final(self).spec_state() == old(self).spec_state(),
            final(self).spec_store() == old(self).spec_store(),
    {
        let mut checkpoint = ProjectionCheckpoint::initial();
        std::mem::swap(&mut checkpoint, &mut self.checkpoint);
        self.checkpoint = checkpoint.with_event_id(event_id);
    }

    /// The checkpoint to save.
    pub fn checkpoint(&self) -> (c: &ProjectionCheckpoint)
        ensures
            *c == self.spec_checkpoint(),
    {
        &self.checkpoint
    }

    /// Goes back to processing.
    pub fn resume_processing(self) -> (r: ProjectionProtocol<P, St, ES, Processing>)
        ensures
            r.spec_projection() == self.spec_projection(),
            r.spec_state() == self.spec_state(),
            r.spec_checkpoint() == self.spec_checkpoint(),
            r.spec_store() == self.spec_store(),
    {
        self.into_phase()
    }

    /// Moves to shutting down.
    pub fn prepare_shutdown(self) -> (r: ProjectionProtocol<P, St, ES, Shutdown>)
        ensures
            r.spec_projection() == self.spec_projection(),
            r.spec_state() == self.spec_state(),
            r.spec_checkpoint() == self.spec_checkpoint(),
            r.spec_store() == self.spec_store(),
    {
        self.into_phase()
    }
}

impl<P, St, ES> ProjectionProtocol<P, St, ES, Shutdown> {
    /// The final state.
    pub fn final_state(self) -> (s: Option<St>)
        ensures
            s == self.spec_state(),
    {
        self.state
    }

    /// The final checkpoint.
    pub fn final_checkpoint(&self) -> (c: &ProjectionCheckpoint)
        ensures
            *c == self.spec_checkpoint(),
    {
        &self.checkpoint
    }
}

} // verus!
