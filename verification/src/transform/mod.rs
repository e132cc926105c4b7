//! Data transformation: transformers that reshape records, chains of them,
//! and a registry.

pub mod field_filter;
pub mod field_mapping;
pub mod registry;
pub mod traits;

pub use field_filter::{FieldFilter, FilterMode};
pub use field_mapping::FieldMapper;
pub use registry::{TransformerChainBuilder, TransformerRegistry};
pub use traits::{SharedTransformer, Transformer, TransformerChain};
