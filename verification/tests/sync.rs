use basevn_migro::operations::sync::{ConflictStrategy, SyncMode, SyncStrategy};

#[test]
fn test_sync_strategy_full() {
    let strategy = SyncStrategy::full();
    assert_eq!(strategy.mode, SyncMode::Full);
    assert!(strategy.key_field.is_none());
    assert!(strategy.is_full());
    assert!(!strategy.is_incremental());
    assert!(strategy.validate().is_ok());
}

#[test]
fn test_sync_strategy_incremental() {
    let strategy = SyncStrategy::incremental("id".to_string(), ConflictStrategy::Update);
    assert_eq!(strategy.mode, SyncMode::Incremental);
    assert_eq!(strategy.key_field, Some("id".to_string()));
    assert_eq!(strategy.conflict_strategy, ConflictStrategy::Update);
    assert!(strategy.is_incremental());
    assert!(!strategy.is_full());
    assert!(strategy.validate().is_ok());
}

#[test]
fn test_sync_strategy_incremental_missing_key_field() {
    let strategy = SyncStrategy {
        mode: SyncMode::Incremental,
        key_field: None,
        conflict_strategy: ConflictStrategy::Update,
    };

    let result = strategy.validate();
    assert!(result.is_err());
    assert_eq!(result.unwrap_err(), "Incremental sync requires key_field");
}

#[test]
fn test_sync_strategy_default() {
    let strategy = SyncStrategy::default();
    assert_eq!(strategy.mode, SyncMode::Full);
    assert!(strategy.is_full());
}

#[test]
fn test_conflict_strategy_default() {
    let strategy = ConflictStrategy::default();
    assert_eq!(strategy, ConflictStrategy::Update);
}

#[test]
fn test_conflict_strategy_variants() {
    assert_eq!(ConflictStrategy::Skip, ConflictStrategy::Skip);
    assert_eq!(ConflictStrategy::Update, ConflictStrategy::Update);
    assert_eq!(ConflictStrategy::Error, ConflictStrategy::Error);
    assert_ne!(ConflictStrategy::Skip, ConflictStrategy::Update);
}

#[test]
fn full_sync_with_key_field_is_still_valid() {
    let strategy = SyncStrategy {
        mode: SyncMode::Full,
        key_field: Some("email".to_string()),
        conflict_strategy: ConflictStrategy::Skip,
    };
    assert!(strategy.validate().is_ok());
    assert!(strategy.is_full());
}

#[test]
fn incremental_strategy_keeps_conflict_choice() {
    let strategy = SyncStrategy::incremental("email".to_string(), ConflictStrategy::Skip);
    assert_eq!(strategy.conflict_strategy, ConflictStrategy::Skip);
    assert_eq!(strategy.key_field.as_deref(), Some("email"));
}
