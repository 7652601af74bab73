//! The lifecycle of a subscription, checked by its type: a subscription is
//! configured before it starts, paused or stopped only while it runs,
//! resumed only while paused, and never restarted once stopped. Delivering
//! the events is the caller's I/O; these types keep what the subscription
//! was given.

use std::marker::PhantomData;
use vstd::prelude::*;

use crate::subscription::{SubscriptionError, SubscriptionName, SubscriptionOptions, SubscriptionPosition};
use crate::types::EventStoreError;

verus! {

/// Created, not configured yet.
#[derive(Debug)]
pub struct Uninitialized;

/// Configured with a name, options and a processor.
#[derive(Debug)]
pub struct Configured;

/// Delivering events.
#[derive(Debug)]
pub struct Running;

/// Delivery paused.
#[derive(Debug)]
pub struct Paused;

/// Stopped for good.
#[derive(Debug)]
pub struct Stopped;

/// A subscription in lifecycle state `State`, over the event store `S`,
/// delivering to a processor `P`.
#[derive(Debug)]
pub struct TypedSubscription<S, P, State> {
    name: Option<SubscriptionName>,
    options: Option<SubscriptionOptions>,
    processor: Option<P>,
    position: Option<SubscriptionPosition>,
    event_store: Option<S>,
    state: PhantomData<State>,
}

impl<S, P, State> TypedSubscription<S, P, State> {
    /// The subscription's name, once configured.
    pub closed spec fn spec_name(&self) -> Option<SubscriptionName> {
        self.name
    }

    /// Where and what it reads, once configured.
    pub closed spec fn spec_options(&self) -> Option<SubscriptionOptions> {
        self.options
    }

    /// The processor it holds, until it starts.
    pub closed spec fn spec_processor(&self) -> Option<P> {
        self.processor
    }

    /// Its recorded position.
    pub closed spec fn spec_position(&self) -> Option<SubscriptionPosition> {
        self.position
    }

    /// The event store it reads.
    pub closed spec fn spec_store(&self) -> Option<S> {
        self.event_store
    }

    /// The event store the subscription reads.
    pub fn event_store(&self) -> (s: Option<&S>)
        ensures
            s == match self.spec_store() {
                Some(x) => Some(&x),
                None => None::<&S>,
            },
    {
        match &self.event_store {
            Some(s) => Some(s),
            None => None,
        }
    }

    /// The options the subscription was configured with.
    pub fn options(&self) -> (o: Option<&SubscriptionOptions>)
        ensures
            o == match self.spec_options() {
                Some(x) => Some(&x),
                None => None::<&SubscriptionOptions>,
            },
    {
        match &self.options {
            Some(o) => Some(o),
            None => None,
        }
    }

    /// The same subscription in state `T`.
    fn into_state<T>(self) -> (r: TypedSubscription<S, P, T>)
        ensures
            r.spec_name() == self.spec_name(),
            r.spec_options() == self.spec_options(),
            r.spec_processor() == self.spec_processor(),
            r.spec_position() == self.spec_position(),
            r.spec_store() == self.spec_store(),
    {
        TypedSubscription {
            name: self.name,
            options: self.options,
            processor: self.processor,
            position: self.position,
            event_store: self.event_store,
            state: PhantomData,
        }
    }
}

impl<S, P> TypedSubscription<S, P, Uninitialized> {
    /// A subscription over `event_store`, not configured yet.
    pub fn new(event_store: S) -> (r: Self)
        ensures
            r.spec_store() == Some(event_store),
            r.spec_name().is_none(),
            r.spec_options().is_none(),
            r.spec_processor().is_none(),
            r.spec_position().is_none(),
    {
        TypedSubscription {
            name: None,
            options: None,
            processor: None,
            position: None,
            event_store: Some(event_store),
            state: PhantomData,
        }
    }

    /// Configures the subscription with its name, options and processor.
    pub fn configure(self, name: SubscriptionName, options: SubscriptionOptions, processor: P) -> (r:
        TypedSubscription<S, P, Configured>)
        ensures
            r.spec_name() == Some(name),
            r.spec_options() == Some(options),
            r.spec_processor() == Some(processor),
            r.spec_position() == self.spec_position(),
            r.spec_store() == self.spec_store(),
    {
        TypedSubscription {
            name: Some(name),
            options: Some(options),
            processor: Some(processor),
            position: self.position,
            event_store: self.event_store,
            state: PhantomData,
        }
    }
}

impl<S, P> TypedSubscription<S, P, Configured> {
    /// Starts the subscription: it hands out its processor, which the caller
    /// runs on the events it delivers, and is then running. It is refused
    /// without an event store, options or processor.
    pub fn start(self) -> (r: Result<(TypedSubscription<S, P, Running>, P), SubscriptionError>)
        ensures
            self.spec_store().is_none() ==> (r matches Err(
                SubscriptionError::EventStore(EventStoreError::ConnectionFailed(m)),
            ) && m@ == "No event store configured"@),
            self.spec_store().is_some() && self.spec_options().is_none() ==> (r matches Err(
                SubscriptionError::EventStore(EventStoreError::Configuration(m)),
            ) && m@ == "No subscription options configured"@),
            self.spec_store().is_some() && self.spec_options().is_some() && self.spec_processor().is_none()
                ==> (r matches Err(SubscriptionError::EventStore(EventStoreError::Configuration(m))) && m@
                == "No processor configured"@),
            r matches Ok((running, processor)) ==> {
                &&& self.spec_processor() == Some(processor)
                &&& running.spec_processor().is_none()
                &&& running.spec_name() == self.spec_name()
                &&& running.spec_options() == self.spec_options()
                &&& running.spec_position() == self.spec_position()
                &&& running.spec_store() == self.spec_store()
            },
            self.spec_store().is_some() && self.spec_options().is_some() && self.spec_processor().is_some()
                ==> r is Ok,
    {
        if self.event_store.is_none() {
            return Err(
                SubscriptionError::EventStore(EventStoreError::ConnectionFailed("No event store configured".to_owned())),
            );
        }
        if self.options.is_none() {
            return Err(
                SubscriptionError::EventStore(
                    EventStoreError::Configuration("No subscription options configured".to_owned()),
                ),
            );
        }
        let mut configured = self;
        let processor = match configured.processor.take() {
            Some(p) => p,
            None => {
                return Err(
                    SubscriptionError::EventStore(EventStoreError::Configuration("No processor configured".to_owned())),
                );
            },
        };
        Ok((configured.into_state(), processor))
    }
}

impl<S, P> TypedSubscription<S, P, Running> {
    /// Pauses the subscription.
    pub fn pause(self) -> (r: TypedSubscription<S, P, Paused>)
        ensures
            r.spec_name() == self.spec_name(),
            r.spec_options() == self.spec_options(),
            r.spec_processor() == self.spec_processor(),
            r.spec_position() == self.spec_position(),
            r.spec_store() == self.spec_store(),
    {
        self.into_state()
    }

    /// Stops the subscription for good.
    pub fn stop(self) -> (r: TypedSubscription<S, P, Stopped>)
        ensures
            r.spec_name() == self.spec_name(),
            r.spec_options() == self.spec_options(),
            r.spec_processor() == self.spec_processor(),
            r.spec_position() == self.spec_position(),
            r.spec_store() == self.spec_store(),
    {
        self.into_state()
    }

    /// The position the subscription has recorded.
    pub fn get_position(&self) -> (p: Option<&SubscriptionPosition>)
        ensures
            p == match self.spec_position() {
                Some(x) => Some(&x),
                None => None::<&SubscriptionPosition>,
            },
    {
        match &self.position {
            Some(p) => Some(p),
            None => None,
        }
    }
}

impl<S, P> TypedSubscription<S, P, Paused> {
    /// Resumes delivery where it stopped.
    pub fn resume(self) -> (r: TypedSubscription<S, P, Running>)
        ensures
            r.spec_name() == self.spec_name(),
            r.spec_options() == self.spec_options(),
            r.spec_processor() == self.spec_processor(),
            r.spec_position() == self.spec_position(),
            r.spec_store() == self.spec_store(),
    {
        self.into_state()
    }

    /// Stops the subscription for good.
    pub fn stop(self) -> (r: TypedSubscription<S, P, Stopped>)
        ensures
            r.spec_name() == self.spec_name(),
            r.spec_options() == self.spec_options(),
            r.spec_processor() == self.spec_processor(),
            r.spec_position() == self.spec_position(),
            r.spec_store() == self.spec_store(),
    {
        self.into_state()
    }
}

impl<S, P> TypedSubscription<S, P, Stopped> {
    /// The position the subscription ended at.
    pub fn get_final_position(&self) -> (p: Option<&SubscriptionPosition>)
        ensures
            p == match self.spec_position() {
                Some(x) => Some(&x),
                None => None::<&SubscriptionPosition>,
            },
    {
        match &self.position {
            Some(p) => Some(p),
            None => None,
        }
    }

    /// The subscription's name.
    pub fn name(&self) -> (n: Option<&SubscriptionName>)
        ensures
            n == match self.spec_name() {
                Some(x) => Some(&x),
                None => None::<&SubscriptionName>,
            },
    {
        match &self.name {
            Some(n) => Some(n),
            None => None,
        }
    }
}

} // verus!
