//! Error types.

pub mod types;

pub use types::{ConfigError, ExtractError, LoadError, MigroError, RecordError, TransformError};
