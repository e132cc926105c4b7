//! Job configuration.

pub mod env;
pub mod job;
pub mod loader;
pub mod mapping;
pub mod source;
pub mod target;

pub use job::JobConfig;
pub use loader::validate_config;
pub use mapping::{FieldMap, MappingConfig, MissingRequiredBehavior, UnmappedFieldBehavior};
pub use source::{CsvOptions, ExcelOptions, PaginationConfig, PaginationType, RestApiOptions, SourceConfig};
pub use target::{AuthConfig, AuthType, BaseVnConfig, BaseVnOptions, TargetConfig};
