use eventcore::resource::integration::{EventStoreResourceExt, SubscriptionResourceExt};
use eventcore::resource::locking::create_mutex_resource;
use eventcore::resource::states::{Acquired, Failed, Initializing, Released};
use eventcore::resource::{
    IsAcquired, IsReleasable, ManagedResource, Resource, ResourceError, ResourceLeakDetector, ResourceScope,
};
use std::sync::atomic::{AtomicUsize, Ordering};
use std::sync::Arc;

#[test]
fn test_resource_state_transitions() {
    let initializing = Resource::<String, Initializing>::new("test".to_string());

    let acquired = initializing.mark_acquired();
    assert_eq!(acquired.get(), "test");

    let failed = acquired.mark_failed();

    let recovered = failed.recover().unwrap();
    assert_eq!(recovered.get(), "test");

    let released = recovered.release().unwrap();
    assert!(released.is_released());
}

#[test]
fn test_resource_scope() {
    let resource = Resource::<String, Acquired>::new("test".to_string());
    let mut scope = ResourceScope::new(resource);

    scope.with_resource(|r| {
        assert_eq!(r.get(), "test");
    });

    assert!(!scope.is_released());
    assert!(!scope.is_leaked());

    scope.release().unwrap();
}

#[test]
fn test_resource_scope_automatic_cleanup() {
    let leaked_flag = Arc::new(AtomicUsize::new(0));
    {
        let resource = Resource::<String, Acquired>::new("test".to_string());
        let _scope = ResourceScope::new(resource);
        leaked_flag.store(1, Ordering::SeqCst);
    }
    assert_eq!(leaked_flag.load(Ordering::SeqCst), 1);
}

#[test]
fn test_mutex_resource() {
    let mutex_resource = create_mutex_resource(42i32);

    let guard = mutex_resource.try_lock().unwrap().unwrap();
    assert_eq!(*guard.get(), 42);

    assert!(mutex_resource.try_lock().unwrap().is_none());

    drop(guard);

    assert!(mutex_resource.try_lock().unwrap().is_some());
}

#[test]
fn test_mutex_resource_mutable_access() {
    let mutex_resource = create_mutex_resource(42i32);

    {
        let mut guard = mutex_resource.try_lock().unwrap().unwrap();
        *guard.get_mut() = 100;
    }

    assert_eq!(*mutex_resource.try_lock().unwrap().unwrap().get(), 100);
}

#[test]
fn test_resource_leak_detector() {
    let mut detector = ResourceLeakDetector::new();

    let initial_stats = detector.get_stats();
    assert_eq!(initial_stats.total_active, 0);
    assert!(initial_stats.by_type.is_empty());

    detector.register_acquisition("res1", "DatabasePool", Some("test_location".to_string()));
    detector.register_acquisition("res2", "DatabasePool", None);
    detector.register_acquisition("res3", "MutexLock", None);

    let stats = detector.get_stats();
    assert_eq!(stats.total_active, 3);
    assert_eq!(stats.by_type.get("DatabasePool"), Some(&2));
    assert_eq!(stats.by_type.get("MutexLock"), Some(&1));

    detector.register_release("res1");

    let stats = detector.get_stats();
    assert_eq!(stats.total_active, 2);
    assert_eq!(stats.by_type.get("DatabasePool"), Some(&1));

    let leaks = detector.find_potential_leaks(1_000_000_000);
    assert!(leaks.is_empty());

    detector.register_release("res2");
    detector.register_release("res3");

    let final_stats = detector.get_stats();
    assert_eq!(final_stats.total_active, 0);
}

#[test]
fn test_global_leak_detector() {
    // The library keeps no global state: the detector is passed explicitly.
    let mut detector = ResourceLeakDetector::new();
    let initial_count = detector.get_stats().total_active;

    detector.register_acquisition("global_test", "TestResource", None);

    let stats = detector.get_stats();
    assert_eq!(stats.total_active, initial_count + 1);

    detector.register_release("global_test");

    let final_stats = detector.get_stats();
    assert_eq!(final_stats.total_active, initial_count);
}

#[test]
fn test_managed_resource() {
    let mut detector = ResourceLeakDetector::new();
    let initial_count = detector.get_stats().total_active;

    let resource = Resource::<String, Acquired>::new("test".to_string());
    let managed = ManagedResource::new(resource, "TestResource", &mut detector);

    let stats = detector.get_stats();
    assert!(stats.total_active > initial_count);
    assert!(stats.by_type.contains_key("TestResource"));

    assert!(managed.get().is_some());

    let taken = managed.take(&mut detector);
    assert!(taken.is_some());

    let final_stats = detector.get_stats();
    assert_eq!(final_stats.total_active, initial_count);
}

#[test]
fn test_resource_error_types() {
    let acquisition_error = ResourceError::AcquisitionFailed("test".to_string());
    assert!(matches!(acquisition_error, ResourceError::AcquisitionFailed(_)));

    let release_error = ResourceError::ReleaseFailed("test".to_string());
    assert!(matches!(release_error, ResourceError::ReleaseFailed(_)));

    let invalid_state_error = ResourceError::InvalidState("test".to_string());
    assert!(matches!(invalid_state_error, ResourceError::InvalidState(_)));

    let timeout_error = ResourceError::Timeout { duration: 1_000_000_000 };
    assert!(matches!(timeout_error, ResourceError::Timeout { .. }));

    let poisoned_error = ResourceError::Poisoned("test".to_string());
    assert!(matches!(poisoned_error, ResourceError::Poisoned(_)));
}

#[test]
fn test_sealed_trait_pattern() {
    fn test_acquired<S: IsAcquired>(_state: std::marker::PhantomData<S>) {}

    fn test_releasable<S: IsReleasable>(_state: std::marker::PhantomData<S>) {}

    test_acquired(std::marker::PhantomData::<Acquired>);
    test_releasable(std::marker::PhantomData::<Acquired>);
    test_releasable(std::marker::PhantomData::<Failed>);
}

#[test]
fn test_compilation_errors() {
    let _resource = Resource::<String, Released>::new("test".to_string());
}

#[test]
fn resource_error_messages() {
    assert_eq!(
        ResourceError::AcquisitionFailed("pool".to_string()).message(),
        "Resource acquisition failed: pool"
    );
    assert_eq!(ResourceError::ReleaseFailed("x".to_string()).message(), "Resource release failed: x");
    assert_eq!(ResourceError::InvalidState("y".to_string()).message(), "Resource is in invalid state: y");
    assert_eq!(ResourceError::Poisoned("z".to_string()).message(), "Resource poisoned: z");
    assert_eq!(
        ResourceError::Timeout { duration: 1_500_000_000 }.message(),
        "Resource operation timed out after 1.5s"
    );
}

#[test]
fn leak_detector_replaces_and_ignores_unknown_ids() {
    let mut detector = ResourceLeakDetector::new();
    detector.register_acquisition("a", "Pool", None);
    detector.register_acquisition("a", "Lock", None);
    detector.register_release("missing");
    let stats = detector.get_stats();
    assert_eq!(stats.total_active, 1);
    assert_eq!(stats.by_type.get("Lock"), Some(&1));
    assert!(stats.by_type.get("Pool").is_none());
    assert_eq!(stats.by_type.len(), 1);
    assert_eq!(detector.find_potential_leaks(0).len() <= 1, true);
}

#[test]
fn managed_resource_ids_carry_their_type() {
    let mut detector = ResourceLeakDetector::new();
    let managed = Resource::<u8, Failed>::new(7).managed("Cache", &mut detector);
    assert!(managed.resource_id().starts_with("Cache_"));
    assert_eq!(managed.resource_id().len(), "Cache_".len() + 36);
    assert_eq!(detector.get_stats().total_active, 1);
}

#[test]
fn scoped_and_timed_extensions() {
    let scope = Resource::<String, Acquired>::new("s".to_string()).scoped();
    assert!(!scope.is_released());
    let timed = Resource::<String, Acquired>::new("t".to_string()).with_timeout(60_000_000_000);
    assert_eq!(timed.get().map(|s| s.as_str()), Some("t"));
    assert!(!timed.is_timed_out());
    assert!(timed.time_remaining().unwrap() <= 60_000_000_000);
    assert!(timed.release().is_ok());

    let expired = Resource::<String, Acquired>::new("e".to_string()).with_timeout(0);
    let mut spins = 0u64;
    while !expired.is_timed_out() && spins < 1_000_000_000 {
        spins += 1;
    }
    assert!(expired.is_timed_out());
    assert!(expired.get().is_none());
    assert!(expired.time_remaining().is_none());
    assert!(matches!(expired.release(), Err(ResourceError::Timeout { .. })));
}

#[test]
fn resources_from_any_value() {
    let store = EventStoreResourceExt::into_resource(5u32);
    assert_eq!(*store.get(), 5);
    let sub = SubscriptionResourceExt::into_resource("sub");
    assert_eq!(sub.into_inner(), "sub");
}

#[test]
fn test_managed_resource_drop_cleanup() {
    let mut detector = ResourceLeakDetector::new();
    let initial_count = detector.get_stats().total_active;

    {
        let resource = Resource::<String, Acquired>::new("test".to_string());
        let managed = ManagedResource::new(resource, "TestResource", &mut detector);

        let stats = detector.get_stats();
        assert!(stats.total_active > initial_count);

        // The registration ends when the resource is given up.
        managed.take(&mut detector);
    }

    let final_stats = detector.get_stats();
    assert_eq!(final_stats.total_active, initial_count);
}

#[test]
fn test_resource_extension_traits() {
    let mut detector = ResourceLeakDetector::new();
    let resource = Resource::<String, Acquired>::new("test".to_string());

    let managed = resource.managed("TestResource", &mut detector);
    assert!(managed.get().is_some());

    let resource2 = Resource::<String, Acquired>::new("test2".to_string());

    let scope = resource2.scoped();
    assert!(!scope.is_released());

    let resource3 = Resource::<String, Acquired>::new("test3".to_string());

    let timed = resource3.with_timeout(1_000_000_000);
    assert!(timed.get().is_some());
}

#[test]
fn timed_guard_decisions_at_given_elapsed_times() {
    let guard = Resource::<String, Acquired>::new("conn".to_string()).with_timeout(1_000);
    assert!(!guard.is_timed_out_at(1_000));
    assert!(guard.is_timed_out_at(1_001));
    assert_eq!(guard.time_remaining_at(400), Some(600));
    assert_eq!(guard.time_remaining_at(1_001), None);
    assert_eq!(guard.get_at(999).map(|s| s.as_str()), Some("conn"));
    assert_eq!(guard.get_at(5_000), None);
    assert!(matches!(guard.release_at(2_000), Err(ResourceError::Timeout { duration: 2_000 })));

    let guard = Resource::<String, Acquired>::new("conn".to_string()).with_timeout(1_000);
    assert!(guard.release_at(10).is_ok());

    let forever = Resource::<u8, Acquired>::new(7).with_timeout(u64::MAX);
    assert!(!forever.is_timed_out());
    assert_eq!(forever.get(), Some(&7));
    assert!(forever.time_remaining().is_some());
    assert!(forever.release().is_ok());
}

#[test]
fn scoped_resource_is_changed_in_place() {
    let mut scope = Resource::<u32, Acquired>::new(41).scoped();
    let seen = scope.with_resource(|r| {
        *r.get_mut() += 1;
        *r.get()
    });
    assert_eq!(seen, 42);
    assert!(!scope.is_released());
    assert!(scope.release().is_ok());
}
