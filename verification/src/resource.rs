//! Resources whose lifecycle state is part of their type: a resource must be
//! acquired before it is used, and cannot be used once released. Scopes,
//! timed guards and a leak detector help release what was acquired.

use std::marker::PhantomData;
use std::time::Instant;
use vstd::prelude::*;

use crate::assoc::{
    assoc_map, keys_distinct, lemma_assoc_at, lemma_assoc_contains, lemma_assoc_len, lemma_assoc_remove,
    lemma_assoc_update,
};
use crate::clock::{duration_debug, duration_debug_text, elapsed_nanos, now};
use crate::types::{new_id_string, uuid_text};

pub mod integration;
pub mod locking;
mod sealed;
pub mod states;

use states::{Acquired, Failed, Initializing, Released};

verus! {

/// What can go wrong with a resource.
#[derive(Debug, Clone, PartialEq, Eq)]
pub enum ResourceError {
    /// Acquiring it failed.
    AcquisitionFailed(String),
    /// Releasing it failed.
    ReleaseFailed(String),
    /// It is in the wrong state for the operation.
    InvalidState(String),
    /// The operation timed out after `duration` nanoseconds.
    Timeout {
        /// Nanoseconds elapsed.
        duration: u64,
    },
    /// A lock was poisoned.
    Poisoned(String),
}

/// The message of a resource error.
pub open spec fn resource_error_text(e: ResourceError) -> Seq<char> {
    match e {
        ResourceError::AcquisitionFailed(m) => "Resource acquisition failed: "@ + m@,
        ResourceError::ReleaseFailed(m) => "Resource release failed: "@ + m@,
        ResourceError::InvalidState(m) => "Resource is in invalid state: "@ + m@,
        ResourceError::Timeout { duration } => "Resource operation timed out after "@ + duration_debug_text(
            duration,
        ),
        ResourceError::Poisoned(m) => "Resource poisoned: "@ + m@,
    }
}

impl ResourceError {
    /// The error's message.
    pub fn message(&self) -> (s: String)
        ensures
            s@ == resource_error_text(*self),
    {
        match self {
            ResourceError::AcquisitionFailed(m) => "Resource acquisition failed: ".to_owned().concat(m.as_str()),
            ResourceError::ReleaseFailed(m) => "Resource release failed: ".to_owned().concat(m.as_str()),
            ResourceError::InvalidState(m) => "Resource is in invalid state: ".to_owned().concat(m.as_str()),
            ResourceError::Timeout { duration } => "Resource operation timed out after ".to_owned().concat(
                duration_debug(*duration).as_str(),
            ),
            ResourceError::Poisoned(m) => "Resource poisoned: ".to_owned().concat(m.as_str()),
        }
    }
}

/// The result of a resource operation.
pub type ResourceResult<T> = Result<T, ResourceError>;

/// A value of type `T` in the lifecycle state `S`. Which operations are
/// available depends on `S`.
#[derive(Debug)]
pub struct Resource<T, S> {
    inner: T,
    state: PhantomData<S>,
}

/// States in which the resource may be used.
pub trait IsAcquired: sealed::Sealed {}

impl IsAcquired for Acquired {}

/// States from which the resource may be released.
pub trait IsReleasable: sealed::Sealed {}

impl IsReleasable for Acquired {}

impl IsReleasable for Failed {}

/// States from which the resource may be recovered.
pub trait IsRecoverable: sealed::Sealed {}

impl IsRecoverable for Failed {}

impl<T, S> Resource<T, S> {
    /// The value held.
    pub closed spec fn spec_inner(&self) -> T {
        self.inner
    }

    /// Wraps `inner` in the state `S`; the caller vouches for that state.
    pub fn new(inner: T) -> (r: Self)
        ensures
            r.spec_inner() == inner,
    {
        Resource { inner, state: PhantomData }
    }

    /// The value held.
    pub fn get(&self) -> (r: &T) where S: IsAcquired
        ensures
            *r == self.spec_inner(),
    {
        &self.inner
    }

    /// The value held, for changing it.
    pub fn get_mut(&mut self) -> (r: &mut T) where S: IsAcquired
        ensures
            *r == old(self).spec_inner(),
            final(self).spec_inner() == *final(r),
    {
        &mut self.inner
    }

    /// Unwraps the value held.
    pub fn into_inner(self) -> (r: T) where S: IsAcquired
        ensures
            r == self.spec_inner(),
    {
        self.inner
    }

    /// Hands the resource to a managed wrapper that registers it with
    /// `detector` under a fresh id.
    pub fn managed(self, resource_type: &str, detector: &mut ResourceLeakDetector) -> (m: ManagedResource<T, S>)
        ensures
            m.spec_inner() == Some(self),
            m.spec_registered(),
            is_managed_id(m.spec_id(), resource_type@),
            final(detector)@ == old(detector)@.insert(m.spec_id(), resource_type@),
    {
        ManagedResource::new(self, resource_type, detector)
    }
}

impl<T> Resource<T, Initializing> {
    /// Initialization succeeded.
    pub fn mark_acquired(self) -> (r: Resource<T, Acquired>)
        ensures
            r.spec_inner() == self.spec_inner(),
    {
        Resource::new(self.inner)
    }

    /// Initialization failed.
    pub fn mark_failed(self) -> (r: Resource<T, Failed>)
        ensures
            r.spec_inner() == self.spec_inner(),
    {
        Resource::new(self.inner)
    }
}

impl<T> Resource<T, Acquired> {
    /// Releases the resource; it cannot be used afterwards. Releasing an
    /// acquired resource always succeeds.
    pub fn release(self) -> (r: ResourceResult<Resource<T, Released>>)
        ensures
            r matches Ok(x) && x.spec_inner() == self.spec_inner(),
    {
        Ok(Resource::new(self.inner))
    }

    /// The resource failed in use.
    pub fn mark_failed(self) -> (r: Resource<T, Failed>)
        ensures
            r.spec_inner() == self.spec_inner(),
    {
        Resource::new(self.inner)
    }

    /// Puts the resource in a scope that releases it.
    pub fn scoped(self) -> (s: ResourceScope<T>)
        ensures
            s.spec_resource() == Some(self),
            !s.is_leaked_spec(),
    {
        ResourceScope::new(self)
    }

    /// Puts the resource under a guard that refuses it after `timeout`
    /// nanoseconds.
    pub fn with_timeout(self, timeout: u64) -> (g: TimedResourceGuard<T>)
        ensures
            g.spec_resource() == Some(self),
            g.spec_timeout() == timeout,
    {
        TimedResourceGuard::new(self, timeout)
    }
}

impl<T> Resource<T, Failed> {
    /// Recovers the resource. Recovery always succeeds.
    pub fn recover(self) -> (r: ResourceResult<Resource<T, Acquired>>)
        ensures
            r matches Ok(x) && x.spec_inner() == self.spec_inner(),
    {
        Ok(Resource::new(self.inner))
    }

    /// Releases the failed resource. This always succeeds.
    pub fn release(self) -> (r: ResourceResult<Resource<T, Released>>)
        ensures
            r matches Ok(x) && x.spec_inner() == self.spec_inner(),
    {
        Ok(Resource::new(self.inner))
    }
}

impl<T> Resource<T, Released> {
    /// Whether the resource is released: always, in this state.
    pub fn is_released(&self) -> (b: bool)
        ensures
            b,
    {
        true
    }
}

/// Acquires resources of type `T`.
pub trait ResourceManager<T> {
    /// Acquires a resource.
    fn acquire() -> ResourceResult<Resource<T, Acquired>>;

    /// Wraps `inner` as a resource being set up; the caller marks it
    /// acquired or failed.
    fn create_initializing(inner: T) -> (r: Resource<T, Initializing>)
        default_ensures
            r.spec_inner() == inner,
    {
        Resource::new(inner)
    }
}

/// Holds an acquired resource until it is released.
pub struct ResourceScope<T> {
    resource: Option<Resource<T, Acquired>>,
    leaked: bool,
}

impl<T> ResourceScope<T> {
    /// The resource held, until release.
    pub closed spec fn spec_resource(&self) -> Option<Resource<T, Acquired>> {
        self.resource
    }

    /// Whether the scope records a leak.
    pub closed spec fn is_leaked_spec(&self) -> bool {
        self.leaked
    }

    /// A scope holding `resource`.
    pub fn new(resource: Resource<T, Acquired>) -> (s: Self)
        ensures
            s.spec_resource() == Some(resource),
            !s.is_leaked_spec(),
    {
        ResourceScope { resource: Some(resource), leaked: false }
    }

    /// Runs `f` on the resource held and returns what `f` returns; the
    /// resource, as `f` leaves it, stays in the scope. The scope must still
    /// hold it.
    pub fn with_resource<F, R>(&mut self, f: F) -> (r: R) where F: FnOnce(&mut Resource<T, Acquired>) -> R
        requires
            old(self).spec_resource().is_some(),
            forall|x: &mut Resource<T, Acquired>| f.requires((x,)),
        ensures
            exists|m: &mut Resource<T, Acquired>|
                old(self).spec_resource() == Some(*m) && final(self).spec_resource() == Some(*final(m))
                    && #[trigger] f.ensures((m,), r),
            final(self).is_leaked_spec() == old(self).is_leaked_spec(),
    {
        let mut resource = self.resource.take().unwrap();
        let r = f(&mut resource);
        self.resource = Some(resource);
        r
    }

    /// Releases the resource held, if any. This always succeeds.
    pub fn release(self) -> (r: ResourceResult<()>)
        ensures
            r is Ok,
    {
        let mut scope = self;
        match scope.resource.take() {
            Some(resource) => {
                let released = resource.release();
                match released {
                    Ok(_) => Ok(()),
                    Err(e) => Err(e),
                }
            },
            None => Ok(()),
        }
    }

    /// Whether the resource was released.
    pub fn is_released(&self) -> (b: bool)
        ensures
            b == self.spec_resource().is_none(),
    {
        self.resource.is_none()
    }

    /// Whether the scope records a leak.
    pub fn is_leaked(&self) -> (b: bool)
        ensures
            b == self.is_leaked_spec(),
    {
        self.leaked
    }
}

/// Holds an acquired resource and refuses it once a timeout has passed
/// since it was put under the guard.
pub struct TimedResourceGuard<T> {
    resource: Option<Resource<T, Acquired>>,
    timeout: u64,
    acquired_at: Instant,
}

impl<T> TimedResourceGuard<T> {
    /// The resource held, until release.
    pub closed spec fn spec_resource(&self) -> Option<Resource<T, Acquired>> {
        self.resource
    }

    /// The timeout, in nanoseconds.
    pub closed spec fn spec_timeout(&self) -> u64 {
        self.timeout
    }

    /// Whether the timeout has passed when `elapsed` nanoseconds have gone
    /// by: it has when more than the timeout has.
    pub open spec fn timed_out_after(&self, elapsed: u64) -> bool {
        elapsed > self.spec_timeout()
    }

    /// The time left when `elapsed` nanoseconds have gone by; `None` once
    /// the timeout has passed.
    pub open spec fn remaining_after(&self, elapsed: u64) -> Option<u64> {
        if elapsed <= self.spec_timeout() {
            Some((self.spec_timeout() - elapsed) as u64)
        } else {
            None
        }
    }

    /// The value held when `elapsed` nanoseconds have gone by: none once the
    /// timeout has passed or the resource was released.
    pub open spec fn value_after(&self, elapsed: u64) -> Option<&T> {
        if self.timed_out_after(elapsed) {
            None
        } else {
            match self.spec_resource() {
                Some(x) => Some(&x.spec_inner()),
                None => None,
            }
        }
    }

    /// The outcome of releasing when `elapsed` nanoseconds have gone by:
    /// nothing to release succeeds; past the timeout a timeout error
    /// carrying `elapsed`; otherwise success.
    pub open spec fn release_after(&self, elapsed: u64) -> ResourceResult<()> {
        if self.spec_resource().is_some() && self.timed_out_after(elapsed) {
            Err(ResourceError::Timeout { duration: elapsed })
        } else {
            Ok(())
        }
    }

    /// A guard on `resource` with a timeout of `timeout` nanoseconds,
    /// starting now.
    pub fn new(resource: Resource<T, Acquired>, timeout: u64) -> (g: Self)
        ensures
            g.spec_resource() == Some(resource),
            g.spec_timeout() == timeout,
    {
        TimedResourceGuard { resource: Some(resource), timeout, acquired_at: now() }
    }

    /// The same as [`TimedResourceGuard::new`]; no task is started to
    /// release the resource.
    pub fn new_with_auto_cleanup(resource: Resource<T, Acquired>, timeout: u64) -> (g: Self)
        ensures
            g.spec_resource() == Some(resource),
            g.spec_timeout() == timeout,
    {
        TimedResourceGuard::new(resource, timeout)
    }

    /// Whether the timeout has passed when `elapsed` nanoseconds have gone
    /// by since the guard started: it has when more than the timeout has.
    pub fn is_timed_out_at(&self, elapsed: u64) -> (b: bool)
        ensures
            b == self.timed_out_after(elapsed),
    {
        elapsed > self.timeout
    }

    /// Whether more than the timeout has passed since the guard started,
    /// read on the clock: [`TimedResourceGuard::is_timed_out_at`] of the
    /// time elapsed. A guard with the largest timeout never times out.
    pub fn is_timed_out(&self) -> (b: bool)
        ensures
            exists|elapsed: u64| b == #[trigger] self.timed_out_after(elapsed),
            self.spec_timeout() == u64::MAX ==> !b,
    {
        self.is_timed_out_at(elapsed_nanos(&self.acquired_at))
    }

    /// The time left before the timeout when `elapsed` nanoseconds have
    /// gone by, in nanoseconds; `None` once more than the timeout has.
    pub fn time_remaining_at(&self, elapsed: u64) -> (r: Option<u64>)
        ensures
            r == self.remaining_after(elapsed),
    {
        self.timeout.checked_sub(elapsed)
    }

    /// The time left before the timeout, read on the clock:
    /// [`TimedResourceGuard::time_remaining_at`] of the time elapsed.
    pub fn time_remaining(&self) -> (r: Option<u64>)
        ensures
            exists|elapsed: u64| r == #[trigger] self.remaining_after(elapsed),
            self.spec_timeout() == u64::MAX ==> r is Some,
    {
        self.time_remaining_at(elapsed_nanos(&self.acquired_at))
    }

    /// The value held when `elapsed` nanoseconds have gone by: none once
    /// the timeout has passed or the resource was released.
    pub fn get_at(&self, elapsed: u64) -> (r: Option<&T>)
        ensures
            r == self.value_after(elapsed),
    {
        if self.is_timed_out_at(elapsed) {
            None
        } else {
            match &self.resource {
                Some(resource) => Some(resource.get()),
                None => None,
            }
        }
    }

    /// The value held, unless the timeout has passed, read on the clock:
    /// [`TimedResourceGuard::get_at`] of the time elapsed.
    pub fn get(&self) -> (r: Option<&T>)
        ensures
            exists|elapsed: u64| r == #[trigger] self.value_after(elapsed),
            self.spec_timeout() == u64::MAX ==> r == match self.spec_resource() {
                Some(x) => Some(&x.spec_inner()),
                None => None::<&T>,
            },
    {
        self.get_at(elapsed_nanos(&self.acquired_at))
    }

    /// Releases the resource held when `elapsed` nanoseconds have gone by:
    /// nothing to release succeeds; past the timeout it fails with a
    /// timeout error carrying `elapsed`; otherwise the release succeeds.
    pub fn release_at(self, elapsed: u64) -> (r: ResourceResult<()>)
        ensures
            r == self.release_after(elapsed),
    {
        let mut guard = self;
        match guard.resource.take() {
            Some(resource) => {
                if elapsed > guard.timeout {
                    return Err(ResourceError::Timeout { duration: elapsed });
                }
                match resource.release() {
                    Ok(_) => Ok(()),
                    Err(e) => Err(e),
                }
            },
            None => Ok(()),
        }
    }

    /// Releases the resource held, read on the clock:
    /// [`TimedResourceGuard::release_at`] of the time elapsed.
    pub fn release(self) -> (r: ResourceResult<()>)
        ensures
            exists|elapsed: u64| r == #[trigger] self.release_after(elapsed),
            self.spec_resource().is_none() || self.spec_timeout() == u64::MAX ==> r is Ok,
    {
        let elapsed = elapsed_nanos(&self.acquired_at);
        self.release_at(elapsed)
    }
}

/// When and where an active resource was acquired, and its type.
#[derive(Debug)]
struct ResourceInfo {
    resource_type: String,
    acquired_at: Instant,
    location: Option<String>,
}

/// The index of the pair with key `k` in `pairs`, where there is one.
pub open spec fn key_index<V>(pairs: Seq<(Seq<char>, V)>, k: Seq<char>) -> int {
    choose|i: int| 0 <= i < pairs.len() && pairs[i].0 == k
}

/// Whether `pairs` has a pair with key `k`.
pub open spec fn has_key<V>(pairs: Seq<(Seq<char>, V)>, k: Seq<char>) -> bool {
    exists|i: int| 0 <= i < pairs.len() && pairs[i].0 == k
}

/// The pairs after `k` is given the value `v`: in its place when present,
/// else last.
pub open spec fn pairs_after_insert<V>(pairs: Seq<(Seq<char>, V)>, k: Seq<char>, v: V) -> Seq<(Seq<char>, V)> {
    if has_key(pairs, k) {
        pairs.update(key_index(pairs, k), (k, v))
    } else {
        pairs.push((k, v))
    }
}

/// The pairs after the pair with key `k`, if any, is taken out.
pub open spec fn pairs_after_remove<V>(pairs: Seq<(Seq<char>, V)>, k: Seq<char>) -> Seq<(Seq<char>, V)> {
    if has_key(pairs, k) {
        pairs.remove(key_index(pairs, k))
    } else {
        pairs
    }
}

/// In pairs with distinct keys, the pair with key `k` at `i` is the one
/// [`key_index`] finds.
proof fn lemma_key_index<V>(pairs: Seq<(Seq<char>, V)>, k: Seq<char>, i: int)
    requires
        keys_distinct(pairs),
        0 <= i < pairs.len(),
        pairs[i].0 == k,
    ensures
        has_key(pairs, k),
        key_index(pairs, k) == i,
{
    assert(has_key(pairs, k));
    let j = key_index(pairs, k);
    if j != i {
        if j < i {
            assert(pairs[j].0 != pairs[i].0);
        } else {
            assert(pairs[i].0 != pairs[j].0);
        }
    }
}

/// The text of an optional location.
pub open spec fn location_view(location: Option<String>) -> Option<Seq<char>> {
    match location {
        Some(l) => Some(l@),
        None => None,
    }
}

/// Two lists of pairs with the same keys in the same places: when one has
/// no key twice, neither has the other.
proof fn lemma_same_keys_distinct<V, W>(a: Seq<(Seq<char>, V)>, b: Seq<(Seq<char>, W)>)
    requires
        a.len() == b.len(),
        forall|i: int| 0 <= i < a.len() ==> (#[trigger] a[i]).0 == b[i].0,
        keys_distinct(a),
    ensures
        keys_distinct(b),
{
    assert forall|i: int, j: int| 0 <= i < j < b.len() implies (#[trigger] b[i]).0 != (#[trigger] b[j]).0 by {
        assert(a[i].0 == b[i].0 && a[j].0 == b[j].0);
    }
}

/// For each resource type, how many of `types` have it.
pub open spec fn type_counts(types: Seq<Seq<char>>) -> Map<Seq<char>, nat>
    decreases types.len(),
{
    if types.len() == 0 {
        Map::empty()
    } else {
        let m = type_counts(types.drop_last());
        let t = types.last();
        m.insert(
            t,
            if m.contains_key(t) {
                m[t] + 1
            } else {
                1
            },
        )
    }
}

/// Tracks active resources by id, to find those held too long.
#[derive(Debug)]
pub struct ResourceLeakDetector {
    active: Vec<(String, ResourceInfo)>,
}

impl View for ResourceLeakDetector {
    type V = Map<Seq<char>, Seq<char>>;

    /// The type of each active resource, by id.
    open spec fn view(&self) -> Map<Seq<char>, Seq<char>> {
        assoc_map(self.spec_pairs())
    }
}

/// The ids of the resources `pairs` whose age, `ages[i]` for `pairs[i]`,
/// exceeds `threshold`, in order.
pub open spec fn held_longer(pairs: Seq<(Seq<char>, Seq<char>)>, ages: Seq<u64>, threshold: u64) -> Seq<Seq<char>>
    decreases pairs.len(),
{
    if pairs.len() == 0 || ages.len() == 0 {
        Seq::empty()
    } else {
        let p = held_longer(pairs.drop_last(), ages.drop_last(), threshold);
        if ages.last() > threshold {
            p.push(pairs.last().0)
        } else {
            p
        }
    }
}

/// Registering a resource that was not tracked and then releasing it
/// leaves the tracked resources as they were.
pub proof fn lemma_acquire_release_round_trip(
    active: Map<Seq<char>, Seq<char>>,
    resource_id: Seq<char>,
    resource_type: Seq<char>,
)
    requires
        !active.contains_key(resource_id),
    ensures
        active.insert(resource_id, resource_type).remove(resource_id) == active,
{
    assert(active.insert(resource_id, resource_type).remove(resource_id) =~= active);
}

impl ResourceLeakDetector {
    /// The active resources' ids and types, in order of first registration.
    pub closed spec fn spec_pairs(&self) -> Seq<(Seq<char>, Seq<char>)> {
        self.active@.map_values(|e: (String, ResourceInfo)| (e.0@, e.1.resource_type@))
    }

    /// The active resources' ids and the places they were acquired at, if
    /// given, in order of first registration.
    pub closed spec fn spec_location_pairs(&self) -> Seq<(Seq<char>, Option<Seq<char>>)> {
        self.active@.map_values(|e: (String, ResourceInfo)| (e.0@, location_view(e.1.location)))
    }

    /// Where each active resource was acquired, if given, by id.
    pub open spec fn spec_locations(&self) -> Map<Seq<char>, Option<Seq<char>>> {
        assoc_map(self.spec_location_pairs())
    }

    /// The active resources' types, in order of first registration.
    pub open spec fn spec_types(&self) -> Seq<Seq<char>> {
        self.spec_pairs().map_values(|p: (Seq<char>, Seq<char>)| p.1)
    }

    #[verifier::type_invariant]
    spec fn ids_distinct(&self) -> bool {
        keys_distinct(self.spec_pairs())
    }

    /// A detector tracking nothing.
    pub fn new() -> (d: Self)
        ensures
            d@ == Map::<Seq<char>, Seq<char>>::empty(),
            d.spec_pairs().len() == 0,
            d.spec_locations() == Map::<Seq<char>, Option<Seq<char>>>::empty(),
    {
        let d = ResourceLeakDetector { active: Vec::new() };
        proof {
            assert(d.spec_pairs().len() == 0);
            assert(d.spec_location_pairs().len() == 0);
        }
        d
    }

    fn position(&self, resource_id: &str) -> (r: Option<usize>)
        ensures
            match r {
                Some(i) => i < self.spec_pairs().len() && self.spec_pairs()[i as int].0 == resource_id@,
                None => forall|i: int| 0 <= i < self.spec_pairs().len() ==> (#[trigger] self.spec_pairs()[i]).0
                    != resource_id@,
            },
    {
        let k = resource_id.to_owned();
        let mut i: usize = 0;
        while i < self.active.len()
            invariant
                i <= self.active@.len(),
                k@ == resource_id@,
                forall|j: int| 0 <= j < i ==> (#[trigger] self.spec_pairs()[j]).0 != resource_id@,
            decreases self.active@.len() - i,
        {
            if self.active[i].0 == k {
                return Some(i);
            }
            i = i + 1;
        }
        None
    }

    /// Records that `resource_id`, of type `resource_type`, was acquired now
    /// at `location`; an earlier record of the id is replaced.
    pub fn register_acquisition(&mut self, resource_id: &str, resource_type: &str, location: Option<String>)
        ensures
            final(self)@ == old(self)@.insert(resource_id@, resource_type@),
            final(self).spec_pairs() == pairs_after_insert(old(self).spec_pairs(), resource_id@, resource_type@),
            final(self).spec_locations() == old(self).spec_locations().insert(resource_id@, location_view(location)),
    {
        proof {
            use_type_invariant(&*self);
        }
        let ghost pairs = self.spec_pairs();
        let ghost lpairs = self.spec_location_pairs();
        let ghost lv = location_view(location);
        proof {
            lemma_same_keys_distinct(pairs, lpairs);
        }
        let found = self.position(resource_id);
        let info = ResourceInfo { resource_type: resource_type.to_owned(), acquired_at: now(), location };
        let mut active: Vec<(String, ResourceInfo)> = Vec::new();
        std::mem::swap(&mut active, &mut self.active);
        let ghost before = active@;
        match found {
            Some(i) => {
                proof {
                    lemma_assoc_update(pairs, i as int, resource_type@);
                    lemma_key_index(pairs, resource_id@, i as int);
                }
                active.set(i, (resource_id.to_owned(), info));
                proof {
                    let np = active@.map_values(|e: (String, ResourceInfo)| (e.0@, e.1.resource_type@));
                    assert forall|j: int| 0 <= j < np.len() implies #[trigger] np[j] == pairs.update(
                        i as int,
                        (pairs[i as int].0, resource_type@),
                    )[j] by {
                        if j != i {
                            assert(active@[j] == before[j]);
                        }
                    }
                    assert(np =~= pairs.update(i as int, (pairs[i as int].0, resource_type@)));
                    lemma_assoc_update(lpairs, i as int, lv);
                    let nl = active@.map_values(|e: (String, ResourceInfo)| (e.0@, location_view(e.1.location)));
                    assert forall|j: int| 0 <= j < nl.len() implies #[trigger] nl[j] == lpairs.update(
                        i as int,
                        (lpairs[i as int].0, lv),
                    )[j] by {
                        if j != i {
                            assert(active@[j] == before[j]);
                        }
                    }
                    assert(nl =~= lpairs.update(i as int, (lpairs[i as int].0, lv)));
                }
            },
            None => {
                proof {
                    lemma_assoc_contains(pairs, resource_id@);
                }
                active.push((resource_id.to_owned(), info));
                proof {
                    let np = active@.map_values(|e: (String, ResourceInfo)| (e.0@, e.1.resource_type@));
                    assert forall|j: int| 0 <= j < np.len() implies #[trigger] np[j] == pairs.push(
                        (resource_id@, resource_type@),
                    )[j] by {
                        if j < before.len() {
                            assert(active@[j] == before[j]);
                        }
                    }
                    assert(np =~= pairs.push((resource_id@, resource_type@)));
                    assert(pairs.push((resource_id@, resource_type@)).drop_last() =~= pairs);
                    let nl = active@.map_values(|e: (String, ResourceInfo)| (e.0@, location_view(e.1.location)));
                    assert forall|j: int| 0 <= j < nl.len() implies #[trigger] nl[j] == lpairs.push((resource_id@, lv))[j] by {
                        if j < before.len() {
                            assert(active@[j] == before[j]);
                        }
                    }
                    assert(nl =~= lpairs.push((resource_id@, lv)));
                    assert(lpairs.push((resource_id@, lv)).drop_last() =~= lpairs);
                    lemma_assoc_contains(lpairs, resource_id@);
                }
            },
        }
        self.active = active;
    }

    /// Records that `resource_id` was released.
    pub fn register_release(&mut self, resource_id: &str)
        ensures
            final(self)@ == old(self)@.remove(resource_id@),
            final(self).spec_pairs() == pairs_after_remove(old(self).spec_pairs(), resource_id@),
            final(self).spec_locations() == old(self).spec_locations().remove(resource_id@),
    {
        proof {
            use_type_invariant(&*self);
        }
        let ghost pairs = self.spec_pairs();
        let ghost lpairs = self.spec_location_pairs();
        proof {
            lemma_same_keys_distinct(pairs, lpairs);
        }
        match self.position(resource_id) {
            Some(i) => {
                let mut active: Vec<(String, ResourceInfo)> = Vec::new();
                std::mem::swap(&mut active, &mut self.active);
                let ghost before = active@;
                active.remove(i);
                proof {
                    lemma_key_index(pairs, resource_id@, i as int);
                    lemma_assoc_remove(pairs, i as int);
                    let np = active@.map_values(|e: (String, ResourceInfo)| (e.0@, e.1.resource_type@));
                    assert forall|j: int| 0 <= j < np.len() implies #[trigger] np[j] == pairs.remove(i as int)[j] by {
                        if j < i {
                            assert(active@[j] == before[j]);
                        } else {
                            assert(active@[j] == before[j + 1]);
                        }
                    }
                    assert(np =~= pairs.remove(i as int));
                    lemma_assoc_remove(lpairs, i as int);
                    let nl = active@.map_values(|e: (String, ResourceInfo)| (e.0@, location_view(e.1.location)));
                    assert forall|j: int| 0 <= j < nl.len() implies #[trigger] nl[j] == lpairs.remove(i as int)[j] by {
                        if j < i {
                            assert(active@[j] == before[j]);
                        } else {
                            assert(active@[j] == before[j + 1]);
                        }
                    }
                    assert(nl =~= lpairs.remove(i as int));
                }
                self.active = active;
            },
            None => {
                proof {
                    lemma_assoc_contains(pairs, resource_id@);
                    assert(assoc_map(pairs).remove(resource_id@) =~= assoc_map(pairs));
                    lemma_assoc_contains(lpairs, resource_id@);
                    assert(forall|j: int| 0 <= j < lpairs.len() ==> (#[trigger] lpairs[j]).0 == pairs[j].0);
                    assert(assoc_map(lpairs).remove(resource_id@) =~= assoc_map(lpairs));
                }
            },
        }
    }

    /// The number of active resources, the count of each type, and the age
    /// of the oldest, in nanoseconds.
    pub fn get_stats(&self) -> (s: ResourceLeakStats)
        ensures
            s.total_active == self@.dom().len(),
            s.by_type@ == type_counts(self.spec_types()),
            self@.dom().len() == 0 ==> s.oldest_resource_age == 0,
    {
        proof {
            use_type_invariant(self);
            lemma_assoc_len(self.spec_pairs());
        }
        let mut by_type = TypeCounts::new();
        let mut oldest: u64 = 0;
        let mut i: usize = 0;
        while i < self.active.len()
            invariant
                i <= self.active@.len(),
                by_type@ == type_counts(self.spec_types().take(i as int)),
                by_type.counts_at_most(i as nat),
                self.active@.len() == 0 ==> oldest == 0,
            decreases self.active@.len() - i,
        {
            proof {
                assert(self.spec_types().take(i + 1).drop_last() =~= self.spec_types().take(i as int));
                assert(self.spec_types()[i as int] == self.active@[i as int].1.resource_type@);
            }
            by_type.add_one(self.active[i].1.resource_type.as_str(), Ghost(i as nat));
            let age = elapsed_nanos(&self.active[i].1.acquired_at);
            if age > oldest {
                oldest = age;
            }
            i = i + 1;
        }
        proof {
            assert(self.spec_types().take(self.active@.len() as int) =~= self.spec_types());
        }
        ResourceLeakStats { total_active: self.active.len(), by_type, oldest_resource_age: oldest }
    }

    /// The ids of the active resources held for more than `threshold`
    /// nanoseconds, in order of registration: how long each was held is
    /// read from the clock, so the contract holds for the ages it read.
    pub fn find_potential_leaks(&self, threshold: u64) -> (v: Vec<String>)
        ensures
            exists|ages: Seq<u64>|
                ages.len() == self.spec_pairs().len() && v@.map_values(|s: String| s@) == held_longer(
                    self.spec_pairs(),
                    ages,
                    threshold,
                ),
    {
        let mut v: Vec<String> = Vec::new();
        let ghost mut ages: Seq<u64> = Seq::empty();
        let mut i: usize = 0;
        while i < self.active.len()
            invariant
                i <= self.active@.len(),
                ages.len() == i,
                v@.map_values(|s: String| s@) == held_longer(self.spec_pairs().take(i as int), ages, threshold),
            decreases self.active@.len() - i,
        {
            let age = elapsed_nanos(&self.active[i].1.acquired_at);
            let ghost before = v@.map_values(|s: String| s@);
            proof {
                let t = self.spec_pairs().take(i + 1);
                assert(t.drop_last() =~= self.spec_pairs().take(i as int));
                assert(t.last() == self.spec_pairs()[i as int]);
                assert(ages.push(age).drop_last() =~= ages);
                assert(self.spec_pairs()[i as int].0 == self.active@[i as int].0@);
            }
            if age > threshold {
                let id = self.active[i].0.clone();
                v.push(id);
                proof {
                    assert(v@.map_values(|s: String| s@) =~= before.push(self.spec_pairs()[i as int].0));
                }
            }
            proof {
                ages = ages.push(age);
            }
            i = i + 1;
        }
        proof {
            assert(self.spec_pairs().take(self.active@.len() as int) =~= self.spec_pairs());
        }
        v
    }
}

impl Default for ResourceLeakDetector {
    fn default() -> (d: Self)
        ensures
            d@ == Map::<Seq<char>, Seq<char>>::empty(),
    {
        ResourceLeakDetector::new()
    }
}

/// Counts by resource type.
#[derive(Debug)]
pub struct TypeCounts {
    counts: Vec<(String, usize)>,
}

impl View for TypeCounts {
    type V = Map<Seq<char>, nat>;

    /// The count of each type.
    open spec fn view(&self) -> Map<Seq<char>, nat> {
        assoc_map(self.spec_pairs())
    }
}

impl TypeCounts {
    /// The types and their counts, in order of first occurrence.
    pub closed spec fn spec_pairs(&self) -> Seq<(Seq<char>, nat)> {
        self.counts@.map_values(|c: (String, usize)| (c.0@, c.1 as nat))
    }

    /// Whether every count is at most `n`.
    pub closed spec fn counts_at_most(&self, n: nat) -> bool {
        forall|j: int| 0 <= j < self.counts@.len() ==> self.counts@[j].1 <= n
    }

    #[verifier::type_invariant]
    spec fn types_distinct(&self) -> bool {
        keys_distinct(self.spec_pairs())
    }

    fn new() -> (c: Self)
        ensures
            c@ == Map::<Seq<char>, nat>::empty(),
            c.counts_at_most(0),
    {
        let c = TypeCounts { counts: Vec::new() };
        proof {
            assert(c.spec_pairs().len() == 0);
        }
        c
    }

    fn position(&self, t: &str) -> (r: Option<usize>)
        ensures
            match r {
                Some(i) => i < self.counts@.len() && self.counts@[i as int].0@ == t@,
                None => forall|i: int| 0 <= i < self.counts@.len() ==> (#[trigger] self.counts@[i]).0@ != t@,
            },
    {
        let k = t.to_owned();
        let mut i: usize = 0;
        while i < self.counts.len()
            invariant
                i <= self.counts@.len(),
                k@ == t@,
                forall|j: int| 0 <= j < i ==> (#[trigger] self.counts@[j]).0@ != t@,
            decreases self.counts@.len() - i,
        {
            if self.counts[i].0 == k {
                return Some(i);
            }
            i = i + 1;
        }
        None
    }

    fn add_one(&mut self, t: &str, bound: Ghost<nat>)
        requires
            old(self).counts_at_most(bound@),
            bound@ < usize::MAX,
        ensures
            final(self)@ == old(self)@.insert(
                t@,
                if old(self)@.contains_key(t@) {
                    old(self)@[t@] + 1
                } else {
                    1
                },
            ),
            final(self).counts_at_most(bound@ + 1),
    {
        proof {
            use_type_invariant(&*self);
        }
        let ghost pairs = self.spec_pairs();
        let ghost max = bound@;
        let found = self.position(t);
        let mut counts: Vec<(String, usize)> = Vec::new();
        std::mem::swap(&mut counts, &mut self.counts);
        let ghost before = counts@;
        match found {
            Some(i) => {
                let n = counts[i].1;
                proof {
                    assert(pairs[i as int] == (before[i as int].0@, n as nat));
                    lemma_assoc_at(pairs, i as int);
                    lemma_assoc_update(pairs, i as int, (n + 1) as nat);
                }
                let name = counts[i].0.clone();
                counts.set(i, (name, n + 1));
                proof {
                    let np = counts@.map_values(|c: (String, usize)| (c.0@, c.1 as nat));
                    assert forall|j: int| 0 <= j < np.len() implies #[trigger] np[j] == pairs.update(
                        i as int,
                        (pairs[i as int].0, (n + 1) as nat),
                    )[j] by {
                        if j != i {
                            assert(counts@[j] == before[j]);
                        }
                    }
                    assert(np =~= pairs.update(i as int, (pairs[i as int].0, (n + 1) as nat)));
                }
                self.counts = counts;
                proof {
                    assert forall|j: int| 0 <= j < self.counts@.len() implies self.counts@[j].1 <= max + 1 by {
                        if j != i {
                            assert(self.counts@[j] == before[j]);
                        }
                    }
                }
            },
            None => {
                proof {
                    lemma_assoc_contains(pairs, t@);
                    if assoc_map(pairs).contains_key(t@) {
                        let j = choose|j: int| 0 <= j < pairs.len() && (#[trigger] pairs[j]).0 == t@;
                        assert(before[j].0@ == t@);
                    }
                }
                counts.push((t.to_owned(), 1));
                proof {
                    let np = counts@.map_values(|c: (String, usize)| (c.0@, c.1 as nat));
                    assert forall|j: int| 0 <= j < np.len() implies #[trigger] np[j] == pairs.push((t@, 1nat))[j] by {
                        if j < before.len() {
                            assert(counts@[j] == before[j]);
                        }
                    }
                    assert(np =~= pairs.push((t@, 1nat)));
                    assert(pairs.push((t@, 1nat)).drop_last() =~= pairs);
                    assert forall|a: int, b: int| 0 <= a < b < np.len() implies (#[trigger] np[a]).0 != (#[trigger] np[b]).0 by {
                        if b == np.len() - 1 {
                            assert(np[a] == pairs[a]);
                        } else {
                            assert(np[a] == pairs[a] && np[b] == pairs[b]);
                        }
                    }
                }
                self.counts = counts;
                proof {
                    assert forall|j: int| 0 <= j < self.counts@.len() implies self.counts@[j].1 <= max + 1 by {
                        if j < before.len() {
                            assert(self.counts@[j] == before[j]);
                        }
                    }
                }
            },
        }
    }

    /// The count of type `t`, if any resource has it.
    pub fn get(&self, t: &str) -> (r: Option<&usize>)
        ensures
            match r {
                Some(n) => self@.contains_key(t@) && self@[t@] == *n as nat,
                None => !self@.contains_key(t@),
            },
    {
        proof {
            use_type_invariant(self);
        }
        match self.position(t) {
            Some(i) => {
                proof {
                    lemma_assoc_at(self.spec_pairs(), i as int);
                }
                Some(&self.counts[i].1)
            },
            None => {
                proof {
                    lemma_assoc_contains(self.spec_pairs(), t@);
                }
                None
            },
        }
    }

    /// Whether some resource has type `t`.
    pub fn contains_key(&self, t: &str) -> (b: bool)
        ensures
            b == self@.contains_key(t@),
    {
        self.get(t).is_some()
    }

    /// The number of types counted.
    pub fn len(&self) -> (n: usize)
        ensures
            n == self@.dom().len(),
    {
        proof {
            use_type_invariant(self);
            lemma_assoc_len(self.spec_pairs());
        }
        self.counts.len()
    }

    /// Whether no type is counted.
    pub fn is_empty(&self) -> (b: bool)
        ensures
            b == (self@.dom().len() == 0),
    {
        self.len() == 0
    }
}

/// A snapshot of the active resources.
#[derive(Debug)]
pub struct ResourceLeakStats {
    /// How many resources are active.
    pub total_active: usize,
    /// How many of each type.
    pub by_type: TypeCounts,
    /// How long the oldest has been held, in nanoseconds.
    pub oldest_resource_age: u64,
}

impl Default for ResourceLeakStats {
    fn default() -> (s: Self)
        ensures
            s.total_active == 0,
            s.by_type@ == Map::<Seq<char>, nat>::empty(),
            s.oldest_resource_age == 0,
    {
        ResourceLeakStats { total_active: 0, by_type: TypeCounts::new(), oldest_resource_age: 0 }
    }
}

/// Whether `id` is an id that a managed resource of type `resource_type`
/// gets: the type, an underscore and a UUID.
pub open spec fn is_managed_id(id: Seq<char>, resource_type: Seq<char>) -> bool {
    exists|v: u128| id == resource_type + "_"@ + uuid_text(v)
}

/// A resource registered with a leak detector while it is held.
pub struct ManagedResource<T, S> {
    inner: Option<Resource<T, S>>,
    resource_id: String,
    cleanup_registered: bool,
}

impl<T, S> ManagedResource<T, S> {
    /// The resource held.
    pub closed spec fn spec_inner(&self) -> Option<Resource<T, S>> {
        self.inner
    }

    /// The id under which it is registered.
    pub closed spec fn spec_id(&self) -> Seq<char> {
        self.resource_id@
    }

    /// Whether it is still registered.
    pub closed spec fn spec_registered(&self) -> bool {
        self.cleanup_registered
    }

    /// Registers `resource`, of type `resource_type`, with `detector` under
    /// a fresh id.
    pub fn new(resource: Resource<T, S>, resource_type: &str, detector: &mut ResourceLeakDetector) -> (m: Self)
        ensures
            m.spec_inner() == Some(resource),
            m.spec_registered(),
            is_managed_id(m.spec_id(), resource_type@),
            final(detector)@ == old(detector)@.insert(m.spec_id(), resource_type@),
    {
        let resource_id = resource_type.to_owned().concat("_").concat(new_id_string().as_str());
        detector.register_acquisition(resource_id.as_str(), resource_type, None);
        ManagedResource { inner: Some(resource), resource_id, cleanup_registered: true }
    }

    /// The resource held.
    pub fn get(&self) -> (r: Option<&Resource<T, S>>)
        ensures
            match r {
                Some(x) => self.spec_inner() == Some(*x),
                None => self.spec_inner().is_none(),
            },
    {
        self.inner.as_ref()
    }

    /// The id under which it is registered.
    pub fn resource_id(&self) -> (s: &String)
        ensures
            s@ == self.spec_id(),
    {
        &self.resource_id
    }

    /// Takes the resource out and deregisters it from `detector`.
    pub fn take(self, detector: &mut ResourceLeakDetector) -> (r: Option<Resource<T, S>>)
        ensures
            r == self.spec_inner(),
            final(detector)@ == if self.spec_registered() {
                old(detector)@.remove(self.spec_id())
            } else {
                old(detector)@
            },
    {
        if self.cleanup_registered {
            detector.register_release(self.resource_id.as_str());
        }
        self.inner
    }
}

/// Statistics of a connection pool.
#[derive(Debug, Clone, Copy, PartialEq, Eq)]
pub struct PoolStats {
    /// Connections in the pool.
    pub size: u32,
    /// Idle connections.
    pub idle: u32,
    /// Whether the pool is closed.
    pub is_closed: bool,
}

} // verus!
