//! The command line and the commands' decisions.

pub mod args;
pub mod migrate;
pub mod status;

pub use args::{Cli, Commands};
pub use migrate::{get_source_type, get_target_type};
