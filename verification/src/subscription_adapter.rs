//! A subscription whose lifecycle state is held at run time: it moves a
//! [`TypedSubscription`] from state to state as calls come, and refuses the
//! calls that its current state does not allow.
//!
//! A call takes the subscription out of the adapter before it acts on it.
//! Where the call is refused, or a stop finds nothing to stop, the
//! subscription is not put back: the adapter is left between states, and
//! every later call is refused (a stop returns without effect).

use vstd::prelude::*;

use crate::subscription::{
    SubscriptionError, SubscriptionName, SubscriptionOptions, SubscriptionPosition, SubscriptionResult,
};
use crate::typestate::{Configured, Paused, Running, Stopped, TypedSubscription, Uninitialized};
use crate::types::EventStoreError;

verus! {

/// The lifecycle states of an adapter.
#[derive(Debug, Clone, Copy, PartialEq, Eq, Structural)]
pub enum AdapterPhase {
    /// Created, not configured.
    Uninitialized,
    /// Configured, not started.
    Configured,
    /// Delivering events.
    Running,
    /// Delivery paused.
    Paused,
    /// Stopped for good.
    Stopped,
    /// Between states: a start failed part way.
    Transitioning,
}

/// The subscription an adapter holds, in its state.
#[derive(Debug)]
pub enum SubscriptionState<S, P> {
    /// Created, not configured.
    Uninitialized(TypedSubscription<S, P, Uninitialized>),
    /// Configured, not started.
    Configured(TypedSubscription<S, P, Configured>),
    /// Delivering events.
    Running(TypedSubscription<S, P, Running>),
    /// Delivery paused.
    Paused(TypedSubscription<S, P, Paused>),
    /// Stopped for good.
    Stopped(TypedSubscription<S, P, Stopped>),
    /// No subscription: a start failed part way.
    Transitioning,
}

/// The phase of a held subscription.
pub open spec fn phase_of<S, P>(s: SubscriptionState<S, P>) -> AdapterPhase {
    match s {
        SubscriptionState::Uninitialized(_) => AdapterPhase::Uninitialized,
        SubscriptionState::Configured(_) => AdapterPhase::Configured,
        SubscriptionState::Running(_) => AdapterPhase::Running,
        SubscriptionState::Paused(_) => AdapterPhase::Paused,
        SubscriptionState::Stopped(_) => AdapterPhase::Stopped,
        SubscriptionState::Transitioning => AdapterPhase::Transitioning,
    }
}

/// Whether `r` is the refusal of a call with the message `message`.
pub open spec fn refused<T>(r: SubscriptionResult<T>, message: Seq<char>) -> bool {
    r matches Err(SubscriptionError::EventStore(EventStoreError::Configuration(m))) && m@ == message
}

/// A subscription that moves through its lifecycle as calls come.
#[derive(Debug)]
pub struct TypedSubscriptionAdapter<S, P> {
    state: SubscriptionState<S, P>,
}

impl<S, P> TypedSubscriptionAdapter<S, P> {
    /// The adapter's lifecycle state.
    pub closed spec fn spec_phase(&self) -> AdapterPhase {
        phase_of(self.state)
    }

    /// The subscription held, in its state.
    pub closed spec fn spec_state(&self) -> SubscriptionState<S, P> {
        self.state
    }

    /// A subscription not configured yet has its event store.
    #[verifier::type_invariant]
    spec fn holds_store(&self) -> bool {
        self.state matches SubscriptionState::Uninitialized(t) ==> t.spec_store().is_some()
    }

    /// An adapter over a new subscription to `event_store`.
    pub fn new(event_store: S) -> (a: Self)
        ensures
            a.spec_phase() == AdapterPhase::Uninitialized,
            a.spec_state() matches SubscriptionState::Uninitialized(t) && t.spec_store() == Some(event_store)
                && t.spec_name().is_none() && t.spec_options().is_none(),
    {
        TypedSubscriptionAdapter { state: SubscriptionState::Uninitialized(TypedSubscription::new(event_store)) }
    }

    fn take_state(&mut self) -> (s: SubscriptionState<S, P>)
        ensures
            s == old(self).spec_state(),
            final(self).spec_phase() == AdapterPhase::Transitioning,
    {
        let mut s = SubscriptionState::Transitioning;
        std::mem::swap(&mut s, &mut self.state);
        s
    }

    /// Starts the subscription and hands back the processor that is to
    /// receive its events. A new subscription is first configured with
    /// `name`, `options` and `processor`; a configured one starts as it was
    /// configured. In any other state the call is refused.
    pub fn start(&mut self, name: SubscriptionName, options: SubscriptionOptions, processor: P) -> (r:
        SubscriptionResult<P>)
        ensures
            old(self).spec_phase() == AdapterPhase::Uninitialized ==> {
                &&& r == Ok::<P, SubscriptionError>(processor)
                &&& final(self).spec_phase() == AdapterPhase::Running
                &&& final(self).spec_state() matches SubscriptionState::Running(t) && t.spec_name() == Some(name)
                    && t.spec_options() == Some(options)
            },
            old(self).spec_phase() == AdapterPhase::Configured ==> match r {
                Ok(_) => final(self).spec_phase() == AdapterPhase::Running,
                Err(_) => final(self).spec_phase() == AdapterPhase::Transitioning,
            },
            old(self).spec_phase() != AdapterPhase::Uninitialized && old(self).spec_phase()
                != AdapterPhase::Configured ==> {
                &&& refused(r, "Cannot start subscription from current state"@)
                &&& final(self).spec_state() == old(self).spec_state()
            },
    {
        proof {
            use_type_invariant(&*self);
        }
        let current = self.take_state();
        match current {
            SubscriptionState::Uninitialized(uninit) => {
                let configured = uninit.configure(name, options, processor);
                match configured.start() {
                    Ok((running, p)) => {
                        self.state = SubscriptionState::Running(running);
                        Ok(p)
                    },
                    Err(e) => Err(e),
                }
            },
            SubscriptionState::Configured(configured) => {
                match configured.start() {
                    Ok((running, p)) => {
                        self.state = SubscriptionState::Running(running);
                        Ok(p)
                    },
                    Err(e) => Err(e),
                }
            },
            other => {
                self.state = other;
                Err(
                    SubscriptionError::EventStore(
                        EventStoreError::Configuration("Cannot start subscription from current state".to_owned()),
                    ),
                )
            },
        }
    }

    /// Stops a running or paused subscription. In any other state there is
    /// nothing to stop and the call succeeds without effect.
    pub fn stop(&mut self) -> (r: SubscriptionResult<()>)
        ensures
            r is Ok,
            old(self).spec_phase() == AdapterPhase::Running || old(self).spec_phase() == AdapterPhase::Paused
                ==> final(self).spec_phase() == AdapterPhase::Stopped,
            !(old(self).spec_phase() == AdapterPhase::Running || old(self).spec_phase() == AdapterPhase::Paused)
                ==> final(self).spec_state() == old(self).spec_state(),
    {
        proof {
            use_type_invariant(&*self);
        }
        let current = self.take_state();
        match current {
            SubscriptionState::Running(running) => {
                self.state = SubscriptionState::Stopped(running.stop());
                Ok(())
            },
            SubscriptionState::Paused(paused) => {
                self.state = SubscriptionState::Stopped(paused.stop());
                Ok(())
            },
            other => {
                self.state = other;
                Ok(())
            },
        }
    }

    /// Pauses a running subscription; in any other state the call is
    /// refused.
    pub fn pause(&mut self) -> (r: SubscriptionResult<()>)
        ensures
            old(self).spec_phase() == AdapterPhase::Running ==> r is Ok && final(self).spec_phase()
                == AdapterPhase::Paused,
            old(self).spec_phase() != AdapterPhase::Running ==> refused(
                r,
                "Cannot pause subscription from current state"@,
            ) && final(self).spec_state() == old(self).spec_state(),
    {
        proof {
            use_type_invariant(&*self);
        }
        let current = self.take_state();
        match current {
            SubscriptionState::Running(running) => {
                self.state = SubscriptionState::Paused(running.pause());
                Ok(())
            },
            other => {
                self.state = other;
                Err(
                    SubscriptionError::EventStore(
                        EventStoreError::Configuration("Cannot pause subscription from current state".to_owned()),
                    ),
                )
            },
        }
    }

    /// Resumes a paused subscription; in any other state the call is
    /// refused.
    pub fn resume(&mut self) -> (r: SubscriptionResult<()>)
        ensures
            old(self).spec_phase() == AdapterPhase::Paused ==> r is Ok && final(self).spec_phase()
                == AdapterPhase::Running,
            old(self).spec_phase() != AdapterPhase::Paused ==> refused(
                r,
                "Cannot resume subscription from current state"@,
            ) && final(self).spec_state() == old(self).spec_state(),
    {
        proof {
            use_type_invariant(&*self);
        }
        let current = self.take_state();
        match current {
            SubscriptionState::Paused(paused) => {
                self.state = SubscriptionState::Running(paused.resume());
                Ok(())
            },
            other => {
                self.state = other;
                Err(
                    SubscriptionError::EventStore(
                        EventStoreError::Configuration("Cannot resume subscription from current state".to_owned()),
                    ),
                )
            },
        }
    }

    /// The position a stopped subscription ended at; no position in any
    /// other state.
    pub fn get_position(&self) -> (r: SubscriptionResult<Option<&SubscriptionPosition>>)
        ensures
            match self.spec_state() {
                SubscriptionState::Stopped(t) => r == Ok::<Option<&SubscriptionPosition>, SubscriptionError>(
                    match t.spec_position() {
                        Some(x) => Some(&x),
                        None => None::<&SubscriptionPosition>,
                    },
                ),
                _ => r == Ok::<Option<&SubscriptionPosition>, SubscriptionError>(None),
            },
    {
        match &self.state {
            SubscriptionState::Stopped(stopped) => Ok(stopped.get_final_position()),
            _ => Ok(None),
        }
    }

    /// Accepts a checkpoint and keeps nothing of it.
    pub fn save_checkpoint(&mut self, position: SubscriptionPosition) -> (r: SubscriptionResult<()>)
        ensures
            r is Ok,
            final(self).spec_state() == old(self).spec_state(),
    {
        Ok(())
    }

    /// There is no saved checkpoint to load.
    pub fn load_checkpoint(&self, name: &SubscriptionName) -> (r: SubscriptionResult<Option<SubscriptionPosition>>)
        ensures
            r matches Ok(None),
    {
        Ok(None)
    }
}

/// A subscription to `event_store` through a [`TypedSubscriptionAdapter`].
pub fn create_typed_subscription<S, P>(event_store: S) -> (a: TypedSubscriptionAdapter<S, P>)
    ensures
        a.spec_phase() == AdapterPhase::Uninitialized,
        a.spec_state() matches SubscriptionState::Uninitialized(t) && t.spec_store() == Some(event_store),
{
    TypedSubscriptionAdapter::new(event_store)
}

} // verus!
