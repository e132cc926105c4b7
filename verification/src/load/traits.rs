//! The outcome of loading a batch: counts and per-record failures.

use vstd::prelude::*;

verus! {

/// The content of a [`RecordFailure`].
pub struct FailureView {
    pub index: int,
    pub id: Option<Seq<char>>,
    pub error: Seq<char>,
}

/// The content of a [`LoadResult`].
pub struct LoadResultView {
    pub total: int,
    pub success: int,
    pub failed: int,
    pub failures: Seq<FailureView>,
}

/// The text of an optional string.
pub open spec fn opt_view(s: Option<String>) -> Option<Seq<char>> {
    match s {
        Some(t) => Some(t@),
        None => None,
    }
}

/// Information about a failed record.
#[derive(Debug, Clone)]
pub struct RecordFailure {
    /// Record index in the batch.
    pub index: usize,
    /// Record identifier (if available).
    pub id: Option<String>,
    /// Error message.
    pub error: String,
}

impl View for RecordFailure {
    type V = FailureView;

    open spec fn view(&self) -> FailureView {
        FailureView { index: self.index as int, id: opt_view(self.id), error: self.error@ }
    }
}

/// Result of a batch load operation: successful and failed records, with
/// detailed error information.
#[derive(Debug, Clone)]
pub struct LoadResult {
    /// Total records in the batch.
    pub total: usize,
    /// Successfully loaded records.
    pub success: usize,
    /// Failed records.
    pub failed: usize,
    /// Detailed failure information.
    pub failures: Vec<RecordFailure>,
}

impl View for LoadResult {
    type V = LoadResultView;

    open spec fn view(&self) -> LoadResultView {
        LoadResultView {
            total: self.total as int,
            success: self.success as int,
            failed: self.failed as int,
            failures: self.failures@.map_values(|f: RecordFailure| f@),
        }
    }
}

/// A batch of `total` records in which every record succeeded.
pub open spec fn all_succeeded(total: int) -> LoadResultView {
    LoadResultView { total, success: total, failed: 0, failures: Seq::empty() }
}

impl LoadResult {
    /// Creates a new load result with nothing counted yet.
    pub fn new(total: usize) -> (r: Self)
        ensures
            r@ == (LoadResultView { total: total as int, success: 0, failed: 0, failures: Seq::empty() }),
    {
        let r = LoadResult { total, success: 0, failed: 0, failures: Vec::new() };
        assert(r@.failures =~= Seq::<FailureView>::empty());
        r
    }

    /// Creates a result in which every record succeeded.
    pub fn success(total: usize) -> (r: Self)
        ensures
            r@ == all_succeeded(total as int),
    {
        let r = LoadResult { total, success: total, failed: 0, failures: Vec::new() };
        assert(r@.failures =~= Seq::<FailureView>::empty());
        r
    }

    /// Adds a successful record.
    pub fn add_success(&mut self)
        requires
            old(self).success < usize::MAX,
        ensures
            final(self)@ == (LoadResultView { success: old(self)@.success + 1, ..old(self)@ }),
    {
        self.success = self.success + 1;
    }

    /// Adds a failed record.
    pub fn add_failure(&mut self, index: usize, id: Option<String>, error: String)
        requires
            old(self).failed < usize::MAX,
        ensures
            final(self)@ == (LoadResultView {
                failed: old(self)@.failed + 1,
                failures: old(self)@.failures.push(FailureView { index: index as int, id: opt_view(id), error: error@ }),
                ..old(self)@
            }),
    {
        self.failed = self.failed + 1;
        let ghost before = self.failures@;
        self.failures.push(RecordFailure { index, id, error });
        assert(self.failures@.map_values(|f: RecordFailure| f@) =~= before.map_values(|f: RecordFailure| f@).push(
            FailureView { index: index as int, id: opt_view(id), error: error@ },
        ));
    }

    /// Returns true if all records succeeded.
    pub fn is_complete_success(&self) -> (b: bool)
        ensures
            b == (self.failed == 0 && self.success == self.total),
    {
        self.failed == 0 && self.success == self.total
    }
}

} // verus!
