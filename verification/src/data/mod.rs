//! Data types: text helpers, keyed tables, values and records.

pub mod json;
pub mod record;
pub mod table;
pub mod text;

pub use record::{Record, Value, ValueModel};
pub use table::Table;
