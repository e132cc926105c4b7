//! Operations: checkpoints for resuming, progress counts, and sync modes.

pub mod checkpoint;
pub mod progress;
pub mod sync;

pub use checkpoint::{Checkpoint, CheckpointManager};
pub use progress::ProgressTracker;
pub use sync::{ConflictStrategy, SyncMode, SyncStrategy};
