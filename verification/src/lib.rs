//! Verified core of a config-driven ETL pipeline that migrates records to the
//! Base.vn platform: records and values, field mapping and filtering,
//! extraction planning, load bookkeeping, and job state.

pub mod cli;
pub mod config;
pub mod data;
pub mod error;
pub mod extract;
pub mod http;
pub mod load;
pub mod operations;
pub mod transform;

pub use crate::config::JobConfig;
pub use crate::data::{Record, Value};
pub use crate::error::MigroError;
pub use crate::extract::{CsvExtractor, ExcelExtractor, RestApiExtractor};
pub use crate::load::{BaseVnLoader, LoadResult};
pub use crate::transform::{FieldMapper, Transformer};
