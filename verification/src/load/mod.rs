//! Loading: batch results, the Base.vn loader's decisions, and rate
//! recovery.

pub mod basevn;
pub mod rate_limiter;
pub mod traits;

pub use basevn::BaseVnLoader;
pub use rate_limiter::RateRecovery;
pub use traits::{LoadResult, RecordFailure};
