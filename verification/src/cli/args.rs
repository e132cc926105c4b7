//! The command line: a verbosity switch and one of four commands.

use vstd::prelude::*;
use std::path::PathBuf;

verus! {

/// A file system path, carried through unchanged.
#[verifier::external_type_specification]
#[verifier::external_body]
pub struct ExPathBuf(PathBuf);

/// Command-line interface.
#[derive(Debug)]
pub struct Cli {
    /// Enable verbose logging.
    pub verbose: bool,
    /// The command to run.
    pub command: Commands,
}

/// The commands.
#[derive(Debug)]
pub enum Commands {
    /// Run a migration job from a configuration file, possibly resuming it.
    Migrate { config: PathBuf, resume: bool },
    /// Validate a configuration file.
    Validate { config: PathBuf },
    /// Show the status of a job, of a checkpoint file, or of all jobs.
    Status { job_id: Option<String>, checkpoint: Option<PathBuf> },
    /// Update the tool (or only check for an update).
    Update { check: bool },
}

} // verus!
