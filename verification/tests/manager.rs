use eventcore::manager::{
    check_transition, LifecycleOperation, ManagerError, ProjectionCheckpoint, ProjectionHealth, ProjectionManager,
    ProjectionManagerConfig, ProjectionStatus,
};
use eventcore::types::EventId;

#[test]
fn status_transition_rules() {
    assert!(ProjectionStatus::Stopped.can_start());
    assert!(ProjectionStatus::Paused.can_start());
    assert!(ProjectionStatus::Faulted.can_start());
    assert!(!ProjectionStatus::Running.can_start());
    assert!(ProjectionStatus::Running.can_stop());
    assert!(ProjectionStatus::Rebuilding.can_stop());
    assert!(!ProjectionStatus::Stopped.can_stop());
    assert!(ProjectionStatus::Running.can_pause());
    assert!(!ProjectionStatus::Paused.can_pause());
}

#[test]
fn health_records_activity_and_errors() {
    let mut health = ProjectionHealth::initial(ProjectionCheckpoint::initial());
    assert_eq!(health.status, ProjectionStatus::Stopped);
    assert!(health.is_healthy);
    health.record_error("boom");
    assert_eq!(health.error_count, 1);
    assert_eq!(health.last_error.as_deref(), Some("boom"));
    assert!(!health.is_healthy);
    health.record_event_processed();
    assert_eq!(health.events_processed, 1);
    assert!(health.is_healthy);
    assert!(health.last_activity.is_some());
    health.set_status(ProjectionStatus::Running);
    health.set_checkpoint(ProjectionCheckpoint::initial().with_event_id(EventId::from_u128(3)));
    assert_eq!(health.current_checkpoint.last_event_id, Some(EventId::from_u128(3)));
}

#[test]
fn manager_config_defaults() {
    let c = ProjectionManagerConfig::default();
    assert_eq!(c.health_check_interval, 30_000_000_000);
    assert_eq!(c.max_consecutive_errors, 5);
    assert_eq!(c.stale_threshold, 300_000_000_000);
}

#[test]
fn manager_transitions() {
    let mut manager = ProjectionManager::new();
    assert_eq!(
        manager.transition("orders", ProjectionStatus::Stopped, LifecycleOperation::Start),
        Err(ManagerError::NotFound("orders".to_string()))
    );
    manager.register_projection("orders", ProjectionCheckpoint::initial());
    assert_eq!(manager.status("orders"), Some(ProjectionStatus::Stopped));
    assert_eq!(
        manager.transition("orders", ProjectionStatus::Stopped, LifecycleOperation::Stop),
        Err(ManagerError::InvalidStateTransition { from: ProjectionStatus::Stopped, to: ProjectionStatus::Stopped })
    );
    assert_eq!(
        manager.transition("orders", ProjectionStatus::Stopped, LifecycleOperation::Start),
        Ok(ProjectionStatus::Running)
    );
    assert_eq!(manager.status("orders"), Some(ProjectionStatus::Running));
    assert_eq!(
        manager.transition("orders", ProjectionStatus::Running, LifecycleOperation::Resume),
        Err(ManagerError::InvalidStateTransition { from: ProjectionStatus::Running, to: ProjectionStatus::Running })
    );
    assert_eq!(
        manager.transition("orders", ProjectionStatus::Running, LifecycleOperation::Pause),
        Ok(ProjectionStatus::Paused)
    );
    assert_eq!(
        manager.transition("orders", ProjectionStatus::Paused, LifecycleOperation::Resume),
        Ok(ProjectionStatus::Running)
    );
    assert_eq!(manager.rebuild("orders"), Ok(()));
    let health = manager.health("orders").unwrap();
    assert_eq!(health.status, ProjectionStatus::Rebuilding);
    assert_eq!(health.events_processed, 0);
    assert_eq!(manager.rebuild("missing"), Err(ManagerError::NotFound("missing".to_string())));
    manager.unregister_projection("orders");
    assert!(manager.status("orders").is_none());
}

#[test]
fn transition_decisions() {
    assert_eq!(
        check_transition("p", None, LifecycleOperation::Pause),
        Err(ManagerError::NotFound("p".to_string()))
    );
    assert_eq!(
        check_transition("p", Some(ProjectionStatus::Faulted), LifecycleOperation::Start),
        Ok(ProjectionStatus::Running)
    );
}

#[test]
fn projection_manager_get_health() {
    let mut manager = ProjectionManager::new();
    manager.register_projection("test-projection", ProjectionCheckpoint::initial());

    let health = manager.get_health("test-projection").ok().unwrap();
    assert_eq!(health.status, ProjectionStatus::Stopped);
    assert_eq!(health.events_processed, 0);
    assert!(health.is_healthy);
}

#[test]
fn projection_manager_not_found_error() {
    let manager = ProjectionManager::new();
    let result = manager.get_health("nonexistent");
    assert!(matches!(result, Err(ManagerError::NotFound(_))));
}

#[test]
fn projection_health_record_event() {
    let mut health = ProjectionHealth::initial(ProjectionCheckpoint::initial());
    assert_eq!(health.events_processed, 0);
    assert!(health.last_activity.is_none());
    health.record_event_processed();
    assert_eq!(health.events_processed, 1);
    assert!(health.last_activity.is_some());
    assert!(health.is_healthy);
}

#[test]
fn projection_health_record_error() {
    let mut health = ProjectionHealth::initial(ProjectionCheckpoint::initial());
    assert_eq!(health.error_count, 0);
    assert!(health.last_error.is_none());
    assert!(health.is_healthy);
    health.record_error("Test error");
    assert_eq!(health.error_count, 1);
    assert_eq!(health.last_error, Some("Test error".to_string()));
    assert!(!health.is_healthy);
}

#[test]
fn projections_are_listed_in_order_of_registration() {
    let mut manager = ProjectionManager::new();
    manager.register_projection("balances", ProjectionCheckpoint::initial());
    manager.register_projection("orders", ProjectionCheckpoint::initial());
    manager.register_projection("balances", ProjectionCheckpoint::initial());
    assert_eq!(manager.list_projections(), vec!["balances".to_string(), "orders".to_string()]);
    manager.unregister_projection("balances");
    assert_eq!(manager.list_projections(), vec!["orders".to_string()]);
}

#[test]
fn inactivity_check_leaves_projections_that_never_ran() {
    let mut manager = ProjectionManager::new();
    manager.register_projection("fresh", ProjectionCheckpoint::initial());

    manager.record_inactivity("fresh", u64::MAX);
    manager.check_projection_health("fresh");
    let health = manager.get_health("fresh").ok().unwrap();
    assert!(health.is_healthy);
    assert_eq!(health.error_count, 0);

    manager.record_inactivity("missing", 400_000_000_000);
    assert!(manager.get_health("missing").is_err());
    assert_eq!(manager.list_projections(), vec!["fresh".to_string()]);
}
