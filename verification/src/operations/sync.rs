//! Sync modes: full replacement, or incremental matching by a key field.

use vstd::prelude::*;
use crate::data::text::owned;

verus! {

/// Sync mode determines how records are loaded to the target.
#[derive(Debug, Clone, Copy, PartialEq, Eq, Structural)]
pub enum SyncMode {
    /// Full sync: delete all existing records and insert all new records.
    Full,
    /// Incremental sync: match by key field, handle conflicts with strategy.
    Incremental,
}

/// Conflict resolution strategy for incremental sync.
#[derive(Debug, Clone, Copy, PartialEq, Eq, Structural)]
pub enum ConflictStrategy {
    /// Skip conflicting records (keep existing).
    Skip,
    /// Update conflicting records (overwrite existing).
    Update,
    /// Error on conflict (fail the record).
    Error,
}

impl Default for ConflictStrategy {
    fn default() -> (r: Self)
        ensures
            r == ConflictStrategy::Update,
    {
        ConflictStrategy::Update
    }
}

/// Sync strategy configuration.
#[derive(Debug, Clone, PartialEq, Eq)]
pub struct SyncStrategy {
    /// Sync mode (full or incremental).
    pub mode: SyncMode,
    /// Key field for matching records; required for incremental mode.
    pub key_field: Option<String>,
    /// Conflict resolution strategy for incremental sync.
    pub conflict_strategy: ConflictStrategy,
}

impl SyncStrategy {
    /// A sync strategy is valid unless it is incremental without a key
    /// field.
    pub open spec fn is_valid(&self) -> bool {
        !(self.mode == SyncMode::Incremental && self.key_field is None)
    }

    /// Creates a new full sync strategy.
    pub fn full() -> (s: Self)
        ensures
            s.mode == SyncMode::Full,
            s.key_field is None,
            s.conflict_strategy == ConflictStrategy::Update,
    {
        SyncStrategy { mode: SyncMode::Full, key_field: None, conflict_strategy: ConflictStrategy::default() }
    }

    /// Creates a new incremental sync strategy matching records by
    /// `key_field` and resolving conflicts with `conflict_strategy`.
    pub fn incremental(key_field: String, conflict_strategy: ConflictStrategy) -> (s: Self)
        ensures
            s.mode == SyncMode::Incremental,
            s.key_field == Some(key_field),
            s.conflict_strategy == conflict_strategy,
    {
        SyncStrategy { mode: SyncMode::Incremental, key_field: Some(key_field), conflict_strategy }
    }

    /// Validates the sync strategy: incremental mode needs a key field.
    pub fn validate(&self) -> (r: Result<(), String>)
        ensures
            r is Ok <==> self.is_valid(),
            r matches Err(m) ==> m@ == "Incremental sync requires key_field"@,
    {
        if self.mode == SyncMode::Incremental && self.key_field.is_none() {
            return Err(owned("Incremental sync requires key_field"));
        }
        Ok(())
    }

    /// Returns true if this is a full sync.
    pub fn is_full(&self) -> (b: bool)
        ensures
            b == (self.mode == SyncMode::Full),
    {
        self.mode == SyncMode::Full
    }

    /// Returns true if this is an incremental sync.
    pub fn is_incremental(&self) -> (b: bool)
        ensures
            b == (self.mode == SyncMode::Incremental),
    {
        self.mode == SyncMode::Incremental
    }
}

impl Default for SyncStrategy {
    fn default() -> (s: Self)
        ensures
            s.mode == SyncMode::Full,
            s.key_field is None,
            s.conflict_strategy == ConflictStrategy::Update,
    {
        Self::full()
    }
}

/// The strategies that the constructors make are valid.
pub proof fn lemma_constructed_strategies_valid(key_field: String, conflict_strategy: ConflictStrategy)
    ensures
        (SyncStrategy { mode: SyncMode::Full, key_field: None, conflict_strategy: ConflictStrategy::Update }).is_valid(),
        (SyncStrategy { mode: SyncMode::Incremental, key_field: Some(key_field), conflict_strategy }).is_valid(),
{
}

} // verus!
