//! Checkpoints: how far a job got, for resuming it.

use vstd::prelude::*;

verus! {

/// The current time as an RFC 3339 timestamp, from
/// `chrono::Utc::now().to_rfc3339()`; nothing is claimed of it.
#[verifier::external_body]
fn now_rfc3339() -> String {
    chrono::Utc::now().to_rfc3339()
}

/// Checkpoint data for resuming interrupted jobs.
#[derive(Debug, Clone, PartialEq)]
pub struct Checkpoint {
    /// Job identifier.
    pub job_id: String,
    /// Last successfully processed record offset/index.
    pub last_offset: usize,
    /// Total records processed so far.
    pub total_processed: usize,
    /// Successful records count.
    pub success_count: usize,
    /// Failed records count.
    pub failed_count: usize,
    /// Record IDs that failed (for retry).
    pub failed_record_ids: Vec<String>,
    /// Timestamp of checkpoint (ISO 8601).
    pub timestamp: String,
}

/// The counts agree: every processed record succeeded or failed.
pub open spec fn counts_consistent(c: Checkpoint) -> bool {
    c.total_processed == c.success_count + c.failed_count
}

impl Checkpoint {
    /// Creates a new checkpoint with nothing processed, stamped with the
    /// current time.
    pub fn new(job_id: String) -> (c: Self)
        ensures
            c.job_id == job_id,
            c.last_offset == 0,
            c.total_processed == 0,
            c.success_count == 0,
            c.failed_count == 0,
            c.failed_record_ids@.len() == 0,
            counts_consistent(c),
    {
        Checkpoint {
            job_id,
            last_offset: 0,
            total_processed: 0,
            success_count: 0,
            failed_count: 0,
            failed_record_ids: Vec::new(),
            timestamp: now_rfc3339(),
        }
    }

    /// Updates the checkpoint with a batch's results: the offset reached,
    /// the batch's success and failure counts, and its failed record ids;
    /// the timestamp becomes the current time.
    pub fn update(&mut self, offset: usize, success: usize, failed: usize, failed_ids: Vec<String>)
        requires
            old(self).total_processed + success + failed <= usize::MAX,
            old(self).success_count + success <= usize::MAX,
            old(self).failed_count + failed <= usize::MAX,
        ensures
            final(self).job_id == old(self).job_id,
            final(self).last_offset == offset,
            final(self).total_processed == old(self).total_processed + success + failed,
            final(self).success_count == old(self).success_count + success,
            final(self).failed_count == old(self).failed_count + failed,
            final(self).failed_record_ids@ == old(self).failed_record_ids@ + failed_ids@,
            counts_consistent(*old(self)) ==> counts_consistent(*final(self)),
    {
        self.last_offset = offset;
        self.total_processed = self.total_processed + (success + failed);
        self.success_count = self.success_count + success;
        self.failed_count = self.failed_count + failed;
        let mut ids = failed_ids;
        self.failed_record_ids.append(&mut ids);
        self.timestamp = now_rfc3339();
    }
}

/// Manager for a job's checkpoint file: the file's path. Reading, writing
/// and deleting the file are left to the caller.
pub struct CheckpointManager {
    checkpoint_path: String,
}

impl CheckpointManager {
    /// The checkpoint file's path.
    pub closed spec fn path_view(&self) -> Seq<char> {
        self.checkpoint_path@
    }

    /// Creates a new checkpoint manager for the file at `checkpoint_path`.
    pub fn new(checkpoint_path: String) -> (m: Self)
        ensures
            m.path_view() == checkpoint_path@,
    {
        CheckpointManager { checkpoint_path }
    }

    /// Returns the checkpoint file path.
    pub fn path(&self) -> (r: &str)
        ensures
            r@ == self.path_view(),
    {
        self.checkpoint_path.as_str()
    }
}

} // verus!
