use eventcore::evolution::{forward_decision, EvolutionStrategy, ForwardCompatibilityMode, ForwardDecision, MigrationChain};

#[test]
fn test_evolution_strategy_configuration() {
    let strategy = EvolutionStrategy::default();
    assert_eq!(strategy.forward_compatibility, ForwardCompatibilityMode::Strict);
    assert!(strategy.validate_after_migration);
    assert_eq!(strategy.max_migration_steps, 10);
    assert!(strategy.enable_migration_cache);

    let custom_strategy = EvolutionStrategy {
        forward_compatibility: ForwardCompatibilityMode::Preserve,
        validate_after_migration: false,
        max_migration_steps: 5,
        enable_migration_cache: false,
    };
    assert_eq!(custom_strategy.forward_compatibility, ForwardCompatibilityMode::Preserve);
    assert!(!custom_strategy.validate_after_migration);
    assert_eq!(custom_strategy.max_migration_steps, 5);
    assert!(!custom_strategy.enable_migration_cache);
}

#[test]
fn migration_paths_follow_registered_steps() {
    let mut chain: MigrationChain<&str> = MigrationChain::new();
    chain.add_migration(1, 2, "one-two");
    chain.add_migration(2, 4, "two-four");
    chain.add_migration(4, 5, "four-five");

    let path = chain.find_migration_path(1, 5).unwrap();
    let versions: Vec<(u32, u32)> = path.iter().map(|(a, b, _)| (*a, *b)).collect();
    assert_eq!(versions, vec![(1, 2), (2, 4), (4, 5)]);
    assert_eq!(*path[1].2, "two-four");

    assert_eq!(chain.find_migration_path(3, 3).unwrap().len(), 0);
    assert!(chain.find_migration_path(1, 3).is_none());
    assert!(chain.find_migration_path(3, 5).is_none());
    assert!(chain.find_migration_path(5, 1).is_none());

    chain.add_migration(2, 3, "two-three");
    let replaced = chain.find_migration_path(1, 3).unwrap();
    assert_eq!(replaced.len(), 2);
    assert_eq!(*replaced[1].2, "two-three");
}

#[test]
fn forward_compatibility_decisions() {
    let mut strategy = EvolutionStrategy::default();
    assert_eq!(
        forward_decision(&strategy, "Deposited", 3, 2),
        ForwardDecision::Refuse("Event version 3 is newer than supported version 2 for type: Deposited".to_string())
    );
    strategy.forward_compatibility = ForwardCompatibilityMode::Preserve;
    assert_eq!(forward_decision(&strategy, "Deposited", 3, 2), ForwardDecision::Preserve);
    strategy.forward_compatibility = ForwardCompatibilityMode::Downgrade;
    assert_eq!(forward_decision(&strategy, "Deposited", 3, 2), ForwardDecision::Downgrade);
}

#[test]
fn test_migration_chain_path_finding() {
    let mut chain: MigrationChain<&str> = MigrationChain::new();

    chain.add_migration(1, 2, "ok");
    chain.add_migration(2, 3, "ok");
    chain.add_migration(3, 4, "ok");

    let path = chain.find_migration_path(1, 4).unwrap();
    assert_eq!(path.len(), 3);

    let path = chain.find_migration_path(2, 4).unwrap();
    assert_eq!(path.len(), 2);

    let path = chain.find_migration_path(1, 1).unwrap();
    assert_eq!(path.len(), 0);

    assert!(chain.find_migration_path(1, 5).is_none());
}

#[test]
fn reverse_migrations_can_be_registered() {
    let mut chain: MigrationChain<&str> = MigrationChain::new();
    chain.add_migration(5, 2, "five-two");
    chain.add_migration(1, 5, "one-five");
    let path = chain.find_migration_path(1, 5).unwrap();
    assert_eq!(path.len(), 1);
    // Going down from a version above the target finds no path.
    assert!(chain.find_migration_path(5, 2).is_none());
    // A migration leading back below the target is followed on.
    chain.add_migration(2, 3, "two-three");
    let mut down: MigrationChain<&str> = MigrationChain::new();
    down.add_migration(3, 1, "three-one");
    down.add_migration(1, 4, "one-four");
    let versions: Vec<(u32, u32)> = down.find_migration_path(3, 4).unwrap().iter().map(|(a, b, _)| (*a, *b)).collect();
    assert_eq!(versions, vec![(3, 1), (1, 4)]);
}

#[test]
fn migrations_in_a_circle_give_no_path() {
    let mut chain: MigrationChain<&str> = MigrationChain::new();
    chain.add_migration(1, 2, "one-two");
    chain.add_migration(2, 1, "two-one");
    assert!(chain.find_migration_path(1, 3).is_none());
}
