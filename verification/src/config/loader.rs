//! Validation of a loaded job configuration.

use vstd::prelude::*;
use crate::error::types::{ConfigError, is_validation, validation};
use super::JobConfig;

verus! {

/// Validates a loaded job configuration: the job id and name must not be
/// empty, and at least one field mapping must exist (checked in that order).
pub fn validate_config(config: &JobConfig) -> (r: Result<(), ConfigError>)
    ensures
        config.job.id@.len() == 0 ==> is_validation(r->Err_0, "job.id cannot be empty"@) && r is Err,
        config.job.id@.len() != 0 && config.job.name@.len() == 0 ==> r is Err && is_validation(r->Err_0, "job.name cannot be empty"@),
        config.job.id@.len() != 0 && config.job.name@.len() != 0 && config.mapping.fields@.len() == 0
            ==> r is Err && is_validation(r->Err_0, "At least one field mapping is required"@),
        r is Ok <==> (config.job.id@.len() != 0 && config.job.name@.len() != 0 && config.mapping.fields@.len() != 0),
{
    if config.job.id.as_str().is_empty() {
        return Err(validation("job.id cannot be empty"));
    }
    if config.job.name.as_str().is_empty() {
        return Err(validation("job.name cannot be empty"));
    }
    if config.mapping.fields.len() == 0 {
        return Err(validation("At least one field mapping is required"));
    }
    Ok(())
}

} // verus!
