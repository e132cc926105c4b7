//! Field mapping configuration.

use vstd::prelude::*;

verus! {

/// Field mapping configuration.
#[derive(Debug, Clone)]
pub struct MappingConfig {
    pub fields: Vec<FieldMap>,
    pub unmapped_fields: UnmappedFieldBehavior,
    pub missing_required: MissingRequiredBehavior,
}

/// Default handling of unmapped source fields.
pub fn default_unmapped_fields() -> (r: UnmappedFieldBehavior)
    ensures
        r == UnmappedFieldBehavior::Ignore,
{
    UnmappedFieldBehavior::Ignore
}

/// Default handling of missing required fields.
pub fn default_missing_required() -> (r: MissingRequiredBehavior)
    ensures
        r == MissingRequiredBehavior::Error,
{
    MissingRequiredBehavior::Error
}

/// Single field mapping.
#[derive(Debug, Clone)]
pub struct FieldMap {
    pub source: String,
    pub target: String,
    pub required: bool,
    pub default: Option<String>,
}

/// Behavior for unmapped source fields.
#[derive(Debug, Clone, Copy, PartialEq, Eq, Structural)]
pub enum UnmappedFieldBehavior {
    Ignore,
    Warn,
    Error,
}

/// Behavior for missing required fields.
#[derive(Debug, Clone, Copy, PartialEq, Eq, Structural)]
pub enum MissingRequiredBehavior {
    Error,
    SkipRecord,
}

} // verus!
