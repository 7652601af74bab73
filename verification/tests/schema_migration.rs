use eventcore::evolution::{EvolutionStrategy, ForwardCompatibilityMode, SchemaRegistry};
use eventcore::schema_migration::{handle_forward_compatibility, migrate_json};
use eventcore::types::EventStoreError;
use serde_json::Value;

type Migration = Box<dyn Fn(Value) -> Result<Value, EventStoreError>>;

fn add_flag(name: &'static str) -> Migration {
    Box::new(move |mut v: Value| {
        if let Some(object) = v.as_object_mut() {
            object.insert(name.to_string(), Value::Bool(true));
        }
        Ok(v)
    })
}

fn drop_field(name: &'static str) -> Migration {
    Box::new(move |mut v: Value| {
        if let Some(object) = v.as_object_mut() {
            object.remove(name);
        }
        Ok(v)
    })
}

fn failing() -> Migration {
    Box::new(|_v: Value| Err(EventStoreError::SchemaEvolutionError("bad".to_string())))
}

fn registry() -> SchemaRegistry<Migration> {
    let mut registry = SchemaRegistry::new();
    registry.register_migration("T".to_string(), 1, 2, add_flag("v2"));
    registry.register_migration("T".to_string(), 2, 3, add_flag("v3"));
    registry
}

fn parsed(bytes: &[u8]) -> Value {
    serde_json::from_slice(bytes).unwrap()
}

#[test]
fn migrating_json_applies_each_step_in_order() {
    let registry = registry();
    let out = migrate_json(&registry, br#"{"id":"x"}"#, "T", 1, 3).unwrap();
    let value = parsed(&out);
    assert_eq!(value["id"], Value::String("x".to_string()));
    assert_eq!(value["v2"], Value::Bool(true));
    assert_eq!(value["v3"], Value::Bool(true));
    let same = migrate_json(&registry, br#"{"id":"x"}"#, "T", 2, 2).unwrap();
    assert_eq!(parsed(&same), parsed(br#"{"id":"x"}"#));
}

#[test]
fn migrating_json_reports_each_error() {
    let registry = registry();
    match migrate_json(&registry, b"not json", "T", 1, 2) {
        Err(EventStoreError::DeserializationFailed(m)) => assert!(m.starts_with("Failed to parse JSON for migration: ")),
        other => panic!("unexpected {other:?}"),
    }
    match migrate_json(&registry, b"{}", "U", 1, 2) {
        Err(EventStoreError::SchemaEvolutionError(m)) => assert_eq!(m, "No migrations registered for type: U"),
        other => panic!("unexpected {other:?}"),
    }
    match migrate_json(&registry, b"{}", "T", 1, 4) {
        Err(EventStoreError::SchemaEvolutionError(m)) => {
            assert_eq!(m, "No migration path found from version 1 to 4 for type: T")
        }
        other => panic!("unexpected {other:?}"),
    }
    let mut broken = SchemaRegistry::new();
    broken.register_migration("T".to_string(), 1, 2, failing());
    match migrate_json(&broken, b"{}", "T", 1, 2) {
        Err(EventStoreError::SchemaEvolutionError(m)) => {
            assert_eq!(m, "Migration failed from version 1 to 2: schema evolution error: bad")
        }
        other => panic!("unexpected {other:?}"),
    }
}

fn strategy(mode: ForwardCompatibilityMode, max_migration_steps: usize) -> EvolutionStrategy {
    EvolutionStrategy {
        forward_compatibility: mode,
        validate_after_migration: true,
        max_migration_steps,
        enable_migration_cache: true,
    }
}

#[test]
fn forward_compatibility_modes() {
    let mut registry = registry();
    registry.register_migration("T".to_string(), 5, 2, drop_field("future_field"));
    let data = br#"{"id":"x","future_field":1}"#;

    match handle_forward_compatibility(&registry, &strategy(ForwardCompatibilityMode::Strict, 10), data, "T", 5, 2) {
        Err(EventStoreError::SchemaEvolutionError(m)) => {
            assert_eq!(m, "Event version 5 is newer than supported version 2 for type: T")
        }
        other => panic!("unexpected {other:?}"),
    }
    let kept =
        handle_forward_compatibility(&registry, &strategy(ForwardCompatibilityMode::Preserve, 10), data, "T", 5, 2);
    assert_eq!(kept.unwrap(), data.to_vec());

    let downgrade = strategy(ForwardCompatibilityMode::Downgrade, 10);
    // Paths are followed upward only, so a newer version finds no path down.
    match handle_forward_compatibility(&registry, &downgrade, data, "T", 5, 2) {
        Err(EventStoreError::SchemaEvolutionError(m)) => {
            assert_eq!(m, "No downgrade path available from version 5 to 2 for type: T")
        }
        other => panic!("unexpected {other:?}"),
    }
    assert_eq!(handle_forward_compatibility(&registry, &downgrade, data, "T", 2, 2).unwrap(), data.to_vec());
    let moved = handle_forward_compatibility(&registry, &downgrade, br#"{"id":"x"}"#, "T", 1, 3).unwrap();
    assert_eq!(parsed(&moved)["v3"], Value::Bool(true));
    match handle_forward_compatibility(&registry, &strategy(ForwardCompatibilityMode::Downgrade, 1), data, "T", 1, 3) {
        Err(EventStoreError::SchemaEvolutionError(m)) => {
            assert_eq!(m, "Migration path from version 1 to 3 exceeds maximum steps (1)")
        }
        other => panic!("unexpected {other:?}"),
    }
    match handle_forward_compatibility(&registry, &downgrade, b"oops", "T", 1, 2) {
        Err(EventStoreError::DeserializationFailed(m)) => {
            assert!(m.starts_with("Failed to parse JSON for migration step 1->2: "))
        }
        other => panic!("unexpected {other:?}"),
    }
}
