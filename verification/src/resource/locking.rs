//! A mutex held as a resource, and its lock guard as an acquired resource.

use std::marker::PhantomData;
use std::sync::{Arc, Mutex, MutexGuard};
use vstd::prelude::*;

use super::states::Acquired;
use super::{Resource, ResourceError, ResourceResult};

verus! {

/// `std::sync::Mutex`. Verus sees nothing inside it.
#[verifier::external_type_specification]
#[verifier::external_body]
#[verifier::reject_recursive_types(T)]
pub struct ExMutex<T: ?Sized>(Mutex<T>);

/// `std::sync::MutexGuard`. Verus sees nothing inside it.
#[verifier::external_type_specification]
#[verifier::external_body]
#[verifier::reject_recursive_types(T)]
pub struct ExMutexGuard<'a, T: ?Sized + 'a>(MutexGuard<'a, T>);

/// Calls `std::sync::Mutex::new`.
#[verifier::external_body]
fn new_mutex<T>(data: T) -> Mutex<T> {
    Mutex::new(data)
}

/// The outcome of trying to take a lock without blocking.
pub enum LockAttempt<G> {
    /// The lock is held.
    Locked(G),
    /// Someone else holds it.
    WouldBlock,
    /// It is poisoned; the error's text.
    Poisoned(String),
}

/// Calls `std::sync::Mutex::try_lock` and tells its three outcomes apart.
/// Which outcome comes is not stated.
#[verifier::external_body]
fn try_lock_mutex<T>(mutex: &Mutex<T>) -> LockAttempt<MutexGuard<'_, T>> {
    match mutex.try_lock() {
        Ok(guard) => LockAttempt::Locked(guard),
        Err(std::sync::TryLockError::WouldBlock) => LockAttempt::WouldBlock,
        Err(std::sync::TryLockError::Poisoned(e)) => LockAttempt::Poisoned(e.to_string()),
    }
}

/// Dereferences a `std::sync::MutexGuard`.
#[verifier::external_body]
fn guard_ref<'b, 'a, T>(guard: &'b MutexGuard<'a, T>) -> &'b T {
    &**guard
}

/// Dereferences a `std::sync::MutexGuard` mutably.
#[verifier::external_body]
fn guard_mut<'b, 'a, T>(guard: &'b mut MutexGuard<'a, T>) -> &'b mut T {
    &mut **guard
}

/// A mutex held as an acquired resource.
pub type MutexResource<T> = Resource<Arc<Mutex<T>>, Acquired>;

/// A held lock: the protected data can be used while it lives.
#[verifier::reject_recursive_types(T)]
pub struct MutexGuardResource<'a, T> {
    guard: MutexGuard<'a, T>,
    state: PhantomData<Acquired>,
}

impl<'a, T> MutexGuardResource<'a, T> {
    /// The held lock that `guard` gives.
    pub fn held(guard: MutexGuard<'a, T>) -> Self {
        MutexGuardResource { guard, state: PhantomData }
    }

    /// The protected data.
    pub fn get(&self) -> &T {
        guard_ref(&self.guard)
    }

    /// The protected data, for changing it.
    pub fn get_mut(&mut self) -> &mut T {
        guard_mut(&mut self.guard)
    }
}

impl<T> Resource<Arc<Mutex<T>>, Acquired> {
    /// Takes the lock if it is free: `None` while someone else holds it; a
    /// poisoned mutex gives a poisoned-lock error.
    pub fn try_lock(&self) -> (r: ResourceResult<Option<MutexGuardResource<'_, T>>>)
        ensures
            r matches Err(e) ==> e matches ResourceError::Poisoned(m) && exists|d: Seq<char>| m@ == "Mutex poisoned: "@ + d,
    {
        let mutex: &Mutex<T> = &**self.get();
        match try_lock_mutex(mutex) {
            LockAttempt::Locked(guard) => Ok(Some(MutexGuardResource::held(guard))),
            LockAttempt::WouldBlock => Ok(None),
            LockAttempt::Poisoned(detail) => Err(poisoned_lock_error(detail.as_str())),
        }
    }
}

/// The error for a lock found poisoned, with the poison error's text
/// `detail`.
pub fn poisoned_lock_error(detail: &str) -> (e: ResourceError)
    ensures
        e matches ResourceError::Poisoned(m) && m@ == "Mutex poisoned: "@ + detail@,
{
    ResourceError::Poisoned("Mutex poisoned: ".to_owned().concat(detail))
}

/// A mutex around `data`, held as an acquired resource.
pub fn create_mutex_resource<T>(data: T) -> MutexResource<T> {
    Resource::new(Arc::new(new_mutex(data)))
}

} // verus!
