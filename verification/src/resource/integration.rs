//! Any value can enter resource management as an acquired resource.

use vstd::prelude::*;

use super::states::Acquired;
use super::Resource;

verus! {

/// An event store held as an acquired resource.
pub type EventStoreResource<ES> = Resource<ES, Acquired>;

/// A subscription held as an acquired resource.
pub type SubscriptionResource<S> = Resource<S, Acquired>;

/// Wraps an event store as an acquired resource.
pub trait EventStoreResourceExt<ES> {
    /// The event store, acquired.
    fn into_resource(self) -> EventStoreResource<ES>;
}

impl<ES> EventStoreResourceExt<ES> for ES {
    fn into_resource(self) -> EventStoreResource<ES> {
        Resource::new(self)
    }
}

/// Wraps a subscription as an acquired resource.
pub trait SubscriptionResourceExt<S> {
    /// The subscription, acquired.
    fn into_resource(self) -> SubscriptionResource<S>;
}

impl<S> SubscriptionResourceExt<S> for S {
    fn into_resource(self) -> SubscriptionResource<S> {
        Resource::new(self)
    }
}

} // verus!
