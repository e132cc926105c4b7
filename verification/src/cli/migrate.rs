//! The decisions of a migration run: where its files go, which records
//! are passed over on resuming, which fail, when a batch is full, how it is
//! written (cleared and inserted, or upserted by a key field), what the
//! audit log records, and how the checkpoint advances. Reading, sending,
//! logging and saving are left to the caller, which hands each outcome
//! back.

use vstd::prelude::*;
use crate::config::job::{ConflictStrategy, JobConfig, SyncConfig, SyncMode};
use crate::config::mapping::MappingConfig;
use crate::config::source::SourceConfig;
use crate::config::target::TargetConfig;
use crate::data::record::Record;
use crate::data::text::{append, owned};
use crate::error::types::{ExtractError, TransformError, extract_message, transform_message};
use crate::load::traits::{LoadResult, RecordFailure};
use crate::operations::checkpoint::Checkpoint;
use crate::operations::progress::ProgressTracker;
use crate::transform::field_mapping::FieldMapper;
use crate::transform::traits::Transformer;

verus! {

/// The name of a source's kind, as the audit log records it.
pub open spec fn source_type_name(source: SourceConfig) -> Seq<char> {
    match source {
        SourceConfig::Csv { .. } => "csv"@,
        SourceConfig::Excel { .. } => "excel"@,
        SourceConfig::RestApi { .. } => "restapi"@,
    }
}

/// Helper function to get source type string.
pub fn get_source_type(source: &SourceConfig) -> (r: String)
    ensures
        r@ == source_type_name(*source),
{
    match source {
        SourceConfig::Csv { .. } => owned("csv"),
        SourceConfig::Excel { .. } => owned("excel"),
        SourceConfig::RestApi { .. } => owned("restapi"),
    }
}

/// Helper function to get target type string.
pub fn get_target_type(target: &TargetConfig) -> (r: String)
    ensures
        r@ == "basevn"@,
{
    match target {
        TargetConfig::BaseVn { .. } => owned("basevn"),
    }
}

/// The checkpoint file of a job.
pub fn checkpoint_path(job_id: &str) -> (r: String)
    ensures
        r@ == ".basevn-migro/checkpoints/"@ + job_id@ + ".json"@,
{
    let mut p = owned(".basevn-migro/checkpoints/");
    append(&mut p, job_id);
    append(&mut p, ".json");
    p
}

/// The audit log file of a job.
pub fn audit_path(job_id: &str) -> (r: String)
    ensures
        r@ == ".basevn-migro/logs/"@ + job_id@ + "_audit.jsonl"@,
{
    let mut p = owned(".basevn-migro/logs/");
    append(&mut p, job_id);
    append(&mut p, "_audit.jsonl");
    p
}

/// An entry for the audit log; the caller adds the job and the time.
pub enum AuditNote {
    /// The job started.
    JobStart { source_type: String, target_type: String },
    /// A record failed.
    RecordFailure { record_index: usize, record_id: Option<String>, error: String },
    /// A batch was loaded.
    BatchComplete { batch_number: usize, success_count: usize, failure_count: usize },
}

/// The note for a record that failed at `index` with `error`, with no
/// record identifier.
pub open spec fn is_record_failure(n: AuditNote, index: int, error: Seq<char>) -> bool {
    n matches AuditNote::RecordFailure { record_index, record_id, error: e } && record_index == index
        && record_id is None && e@ == error
}

/// The notes for a loaded batch are right: the batch's completion, then
/// each failure at its index counted from `base_offset`.
pub open spec fn batch_notes(notes: Seq<AuditNote>, batch_number: int, result: LoadResult, base_offset: int) -> bool {
    &&& notes.len() == result.failures@.len() + 1
    &&& notes[0] matches AuditNote::BatchComplete { batch_number: b, success_count, failure_count } && b
        == batch_number && success_count == result.success && failure_count == result.failed
    &&& forall|i: int|
        0 <= i < result.failures@.len() ==> (#[trigger] notes[i + 1] matches AuditNote::RecordFailure {
            record_index,
            record_id,
            error,
        } && record_index == base_offset + result.failures@[i].index && record_id == result.failures@[i].id
            && error == result.failures@[i].error)
}

/// The identifiers of the failures that have one, in order.
pub open spec fn failure_ids(failures: Seq<RecordFailure>) -> Seq<Seq<char>>
    decreases failures.len(),
{
    if failures.len() == 0 {
        Seq::empty()
    } else {
        let prev = failure_ids(failures.drop_last());
        match failures.last().id {
            Some(id) => prev.push(id@),
            None => prev,
        }
    }
}

/// How a batch is written to the target: inserted as new records (full
/// sync), or upserted by a key field, with the strategy for a record whose
/// key already exists (incremental sync).
pub enum WriteMode {
    Insert,
    Upsert { key_field: String, conflict: ConflictStrategy },
}

/// The write mode follows the sync configuration: full sync inserts;
/// incremental sync upserts by its key field with its conflict strategy.
pub open spec fn write_mode_matches(w: WriteMode, sync: SyncConfig) -> bool {
    match sync.mode {
        SyncMode::Full => w is Insert,
        SyncMode::Incremental => sync.incremental matches Some(inc) && (w matches WriteMode::Upsert {
            key_field,
            conflict,
        } && key_field@ == inc.key_field@ && conflict == inc.conflict),
    }
}

/// A sync configuration can be run unless it is incremental without its
/// key field settings.
pub open spec fn sync_runnable(sync: SyncConfig) -> bool {
    !(sync.mode == SyncMode::Incremental && sync.incremental is None)
}

/// The write mode of a sync configuration; an incremental sync without
/// its key field settings is an error.
pub fn write_mode_for(sync: &SyncConfig) -> (r: Result<WriteMode, String>)
    ensures
        r is Ok <==> sync_runnable(*sync),
        r matches Ok(w) ==> write_mode_matches(w, *sync),
        r matches Err(m) ==> m@ == "Incremental sync requires key_field"@,
{
    match sync.mode {
        SyncMode::Full => Ok(WriteMode::Insert),
        SyncMode::Incremental => match &sync.incremental {
            Some(inc) => Ok(WriteMode::Upsert { key_field: inc.key_field.clone(), conflict: inc.conflict }),
            None => Err(owned("Incremental sync requires key_field")),
        },
    }
}

/// The name of a conflict strategy, as a request names it.
pub fn conflict_label(c: ConflictStrategy) -> (r: &'static str)
    ensures
        r@ == (match c {
            ConflictStrategy::Skip => "skip"@,
            ConflictStrategy::Update => "update"@,
            ConflictStrategy::Error => "error"@,
        }),
{
    match c {
        ConflictStrategy::Skip => "skip",
        ConflictStrategy::Update => "update",
        ConflictStrategy::Error => "error",
    }
}

impl WriteMode {
    /// A copy of the write mode.
    pub fn clone_mode(&self) -> (r: WriteMode)
        ensures
            r == *self,
    {
        match self {
            WriteMode::Insert => WriteMode::Insert,
            WriteMode::Upsert { key_field, conflict } => WriteMode::Upsert { key_field: key_field.clone(), conflict: *conflict },
        }
    }
}

/// A batch to send: whether the target's existing records are to be
/// deleted first, the records, and how they are written.
pub struct BatchStep {
    pub purge_first: bool,
    pub records: Vec<Record>,
    pub write: WriteMode,
}

/// A migration run: the field mapping, the batch being filled, the
/// position in the source and the position to resume from, the count of
/// batches sent, the progress counts, the checkpoint, how batches are
/// written and whether the target is still to be cleared.
pub struct Migration {
    mapper: FieldMapper,
    batch_size: usize,
    batch: Vec<Record>,
    record_index: usize,
    resume_offset: usize,
    batch_number: usize,
    progress: ProgressTracker,
    checkpoint: Checkpoint,
    write: WriteMode,
    purge_due: bool,
}

/// A run has just started for this job: nothing read, batched or sent
/// yet; the checkpoint resumed or new, and records before its offset to be
/// passed over; the write mode of the sync configuration, and the target to
/// be cleared first on a full sync that does not resume; and the job-start
/// note.
pub open spec fn started(
    config: JobConfig,
    resume: bool,
    existing: Option<Checkpoint>,
    estimated: Option<u64>,
    run: Migration,
    note: Option<AuditNote>,
) -> bool {
    &&& run.mapper_view().config_of() == config.mapping
    &&& run.batch_size_view() == config.target->basevn.options.batch_size
    &&& run.batch_view().len() == 0
    &&& run.batch_number_view() == 0
    &&& run.progress_view().total_view() == (match estimated {
        Some(n) => n as usize,
        None => 1000usize,
    })
    &&& run.progress_view().processed_view() == 0
    &&& run.progress_view().success_view() == 0
    &&& run.progress_view().failed_view() == 0
    &&& resume && existing is Some ==> run.checkpoint_view() == existing->Some_0 && (note matches Some(
        AuditNote::JobStart { source_type, target_type },
    ) && source_type@ == "resume"@ && target_type@ == "basevn"@)
    &&& !(resume && existing is Some) ==> run.checkpoint_view().job_id == config.job.id
        && run.checkpoint_view().last_offset == 0 && run.checkpoint_view().total_processed == 0
        && run.checkpoint_view().success_count == 0 && run.checkpoint_view().failed_count == 0
        && run.checkpoint_view().failed_record_ids@.len() == 0
    &&& resume && existing is None ==> note is None
    &&& !resume ==> (note matches Some(AuditNote::JobStart { source_type, target_type }) && source_type@
        == source_type_name(config.source) && target_type@ == "basevn"@)
    &&& run.record_index_view() == 0
    &&& run.resume_offset_view() == run.checkpoint_view().last_offset
    &&& write_mode_matches(run.write_view(), config.sync)
    &&& run.purge_due_view() == (config.sync.mode == SyncMode::Full && !(resume && existing is Some))
}

/// Two states of a run share the mapping, batch size, resume offset and
/// write mode.
pub open spec fn same_plan(a: Migration, b: Migration) -> bool {
    &&& a.mapper_view() == b.mapper_view()
    &&& a.batch_size_view() == b.batch_size_view()
    &&& a.resume_offset_view() == b.resume_offset_view()
    &&& a.write_view() == b.write_view()
}

/// The progress counts one more failed record and nothing else.
pub open spec fn counted_failure(after: ProgressTracker, before: ProgressTracker) -> bool {
    &&& after.failed_view() == before.failed_view() + 1
    &&& after.success_view() == before.success_view()
    &&& after.processed_view() == before.processed_view() + 1
    &&& after.total_view() == before.total_view()
}

/// What taking in an extracted record does: the index moves on and the
/// plan, the batches sent and the checkpoint stay; before the resume offset
/// the record is passed over, neither mapped nor batched; from it on, the
/// record is mapped and joins the batch, or counts as a failure with its
/// note.
pub open spec fn record_step(before: Migration, record: Record, after: Migration, n: Option<AuditNote>) -> bool {
    &&& after.record_index_view() == before.record_index_view() + 1
    &&& same_plan(after, before)
    &&& after.purge_due_view() == before.purge_due_view()
    &&& after.batch_number_view() == before.batch_number_view()
    &&& after.checkpoint_view() == before.checkpoint_view()
    &&& before.record_index_view() < before.resume_offset_view() ==> n is None && after.batch_view()
        == before.batch_view() && after.progress_view() == before.progress_view()
    &&& before.record_index_view() >= before.resume_offset_view() ==> exists|out: Result<Record, TransformError>|
        before.mapper_view().transforms(record, out) && match out {
            Ok(t) => n is None && after.batch_view() == before.batch_view().push(t) && after.progress_view()
                == before.progress_view(),
            Err(e) => (n matches Some(note) && is_record_failure(note, before.record_index_view(), transform_message(e)))
                && after.batch_view() == before.batch_view() && counted_failure(after.progress_view(), before.progress_view()),
        }
}

impl Migration {
    /// The field mapping applied to each record.
    pub closed spec fn mapper_view(&self) -> FieldMapper {
        self.mapper
    }

    /// Records per batch.
    pub closed spec fn batch_size_view(&self) -> int {
        self.batch_size as int
    }

    /// The transformed records waiting to be sent.
    pub closed spec fn batch_view(&self) -> Seq<Record> {
        self.batch@
    }

    /// The index of the next record from the source.
    pub closed spec fn record_index_view(&self) -> int {
        self.record_index as int
    }

    /// Batches sent so far.
    pub closed spec fn batch_number_view(&self) -> int {
        self.batch_number as int
    }

    /// The progress counts.
    pub closed spec fn progress_view(&self) -> ProgressTracker {
        self.progress
    }

    /// The checkpoint.
    pub closed spec fn checkpoint_view(&self) -> Checkpoint {
        self.checkpoint
    }

    /// The source position before which records were handled by an
    /// earlier run and are passed over.
    pub closed spec fn resume_offset_view(&self) -> int {
        self.resume_offset as int
    }

    /// How batches are written.
    pub closed spec fn write_view(&self) -> WriteMode {
        self.write
    }

    /// The target's existing records are still to be deleted.
    pub closed spec fn purge_due_view(&self) -> bool {
        self.purge_due
    }

    /// Starts a run of a job: resuming from an existing checkpoint when
    /// asked to and one was found (records before its offset are passed
    /// over), otherwise from a new one; progress counts against the
    /// estimated record count, or 1000 without an estimate. Batches are
    /// written as the sync configuration says, and a full sync that does
    /// not resume clears the target before its first batch. Also gives the
    /// job-start note: none when resuming was asked for but no checkpoint
    /// was found. An incremental sync without its key field settings
    /// cannot run.
    pub fn start(config: JobConfig, resume: bool, existing: Option<Checkpoint>, estimated: Option<u64>) -> (r: Result<
        (Migration, Option<AuditNote>),
        String,
    >)
        ensures
            r is Ok <==> sync_runnable(config.sync),
            r matches Err(m) ==> m@ == "Incremental sync requires key_field"@,
            r matches Ok(p) ==> started(config, resume, existing, estimated, p.0, p.1),
    {
        let write = match write_mode_for(&config.sync) {
            Ok(w) => w,
            Err(m) => {
                return Err(m);
            },
        };
        let purge_due = config.sync.mode == SyncMode::Full && !(resume && existing.is_some());
        let JobConfig { job, source, target, mapping, .. } = config;
        let batch_size = match &target {
            TargetConfig::BaseVn { basevn } => basevn.options.batch_size,
        };
        let target_type = get_target_type(&target);
        let (checkpoint, note) = if resume {
            match existing {
                Some(c) => (c, Some(AuditNote::JobStart { source_type: owned("resume"), target_type })),
                None => (Checkpoint::new(job.id.clone()), None),
            }
        } else {
            let source_type = get_source_type(&source);
            (Checkpoint::new(job.id.clone()), Some(AuditNote::JobStart { source_type, target_type }))
        };
        let total: usize = match estimated {
            Some(n) => n as usize,
            None => 1000,
        };
        let resume_offset = checkpoint.last_offset;
        let run = Migration {
            mapper: FieldMapper::new(mapping),
            batch_size,
            batch: Vec::new(),
            record_index: 0,
            resume_offset,
            batch_number: 0,
            progress: ProgressTracker::new(total),
            checkpoint,
            write,
            purge_due,
        };
        Ok((run, note))
    }

    /// The index of the next record from the source.
    pub fn record_index(&self) -> (i: usize)
        ensures
            i == self.record_index_view(),
    {
        self.record_index
    }

    /// Batches sent so far.
    pub fn batch_number(&self) -> (n: usize)
        ensures
            n == self.batch_number_view(),
    {
        self.batch_number
    }

    /// The position is before the resume offset: the record there was
    /// handled by an earlier run.
    pub fn passing_over(&self) -> (b: bool)
        ensures
            b == (self.record_index_view() < self.resume_offset_view()),
    {
        self.record_index < self.resume_offset
    }

    /// A record could not be extracted: before the resume offset it is
    /// passed over; otherwise it counts as a failure at the current index.
    /// The index moves on either way.
    pub fn on_extract_error(&mut self, error: &ExtractError) -> (n: Option<AuditNote>)
        requires
            old(self).record_index_view() < usize::MAX,
            old(self).progress_view().processed_view() < usize::MAX,
        ensures
            final(self).record_index_view() == old(self).record_index_view() + 1,
            same_plan(*final(self), *old(self)),
            final(self).purge_due_view() == old(self).purge_due_view(),
            final(self).batch_view() == old(self).batch_view(),
            final(self).batch_number_view() == old(self).batch_number_view(),
            final(self).checkpoint_view() == old(self).checkpoint_view(),
            old(self).record_index_view() < old(self).resume_offset_view() ==> n is None && final(self).progress_view()
                == old(self).progress_view(),
            old(self).record_index_view() >= old(self).resume_offset_view() ==> (n matches Some(note)
                && is_record_failure(note, old(self).record_index_view(), extract_message(*error)))
                && counted_failure(final(self).progress_view(), old(self).progress_view()),
    {
        if self.record_index < self.resume_offset {
            self.record_index = self.record_index + 1;
            return None;
        }
        let note = AuditNote::RecordFailure { record_index: self.record_index, record_id: None, error: error.message() };
        self.progress.inc_failure();
        self.record_index = self.record_index + 1;
        Some(note)
    }

    /// A record was extracted: before the resume offset it is passed over,
    /// neither mapped nor batched; otherwise it is mapped, and either joins
    /// the batch or counts as a failure at the current index. The index
    /// moves on either way. Returns the failure's note.
    pub fn on_record(&mut self, record: Record) -> (n: Option<AuditNote>)
        requires
            old(self).record_index_view() < usize::MAX,
            old(self).progress_view().processed_view() < usize::MAX,
        ensures
            record_step(*old(self), record, *final(self), n),
    {
        if self.record_index < self.resume_offset {
            self.record_index = self.record_index + 1;
            return None;
        }
        let index = self.record_index;
        let ghost input = record;
        let out = self.mapper.transform(record);
        let ghost outv = out;
        let ghost before = *self;
        let note = match out {
            Ok(t) => {
                self.batch.push(t);
                None
            },
            Err(e) => {
                self.progress.inc_failure();
                Some(AuditNote::RecordFailure { record_index: index, record_id: None, error: e.message() })
            },
        };
        self.record_index = self.record_index + 1;
        assert(before.mapper_view().transforms(input, outv));
        note
    }

    /// The batch has reached the batch size and is to be sent.
    pub fn batch_full(&self) -> (b: bool)
        ensures
            b == (self.batch_view().len() >= self.batch_size_view()),
    {
        self.batch.len() >= self.batch_size
    }

    /// There are records left to send.
    pub fn has_pending(&self) -> (b: bool)
        ensures
            b == (self.batch_view().len() > 0),
    {
        self.batch.len() > 0
    }

    /// Takes the batch to send it, with the write mode and whether the
    /// target is to be cleared first (on the first batch of a full sync
    /// that does not resume); it counts as the next batch.
    pub fn take_batch(&mut self) -> (r: BatchStep)
        requires
            old(self).batch_number_view() < usize::MAX,
        ensures
            r.records@ == old(self).batch_view(),
            r.write == old(self).write_view(),
            r.purge_first == old(self).purge_due_view(),
            !final(self).purge_due_view(),
            final(self).batch_view().len() == 0,
            final(self).batch_number_view() == old(self).batch_number_view() + 1,
            final(self).record_index_view() == old(self).record_index_view(),
            final(self).checkpoint_view() == old(self).checkpoint_view(),
            final(self).progress_view() == old(self).progress_view(),
            same_plan(*final(self), *old(self)),
    {
        let mut taken: Vec<Record> = Vec::new();
        std::mem::swap(&mut taken, &mut self.batch);
        self.batch_number = self.batch_number + 1;
        let purge_first = self.purge_due;
        self.purge_due = false;
        BatchStep { purge_first, records: taken, write: self.write.clone_mode() }
    }

    /// At the end of a run: whether the target is still to be cleared (a
    /// full sync that sent no batch); afterwards it is not.
    pub fn take_purge(&mut self) -> (b: bool)
        ensures
            b == old(self).purge_due_view(),
            !final(self).purge_due_view(),
            final(self).batch_view() == old(self).batch_view(),
            final(self).batch_number_view() == old(self).batch_number_view(),
            final(self).record_index_view() == old(self).record_index_view(),
            final(self).checkpoint_view() == old(self).checkpoint_view(),
            final(self).progress_view() == old(self).progress_view(),
            same_plan(*final(self), *old(self)),
    {
        let b = self.purge_due;
        self.purge_due = false;
        b
    }

    /// The sent batch's result: its counts join the progress, the audit log
    /// gets the batch's completion and each failure (at the checkpoint's
    /// offset plus the failure's index in the batch), and the checkpoint
    /// moves to the current index with the batch's counts and the failed
    /// records' identifiers.
    pub fn on_batch_loaded(&mut self, result: &LoadResult) -> (notes: Vec<AuditNote>)
        requires
            old(self).progress_view().processed_view() + result.success + result.failed <= usize::MAX,
            old(self).checkpoint_view().total_processed + result.success + result.failed <= usize::MAX,
            old(self).checkpoint_view().success_count + result.success <= usize::MAX,
            old(self).checkpoint_view().failed_count + result.failed <= usize::MAX,
            forall|i: int|
                0 <= i < result.failures@.len() ==> old(self).checkpoint_view().last_offset + (
                #[trigger] result.failures@[i]).index <= usize::MAX,
        ensures
            batch_notes(notes@, old(self).batch_number_view(), *result, old(self).checkpoint_view().last_offset as int),
            final(self).progress_view().processed_view() == old(self).progress_view().processed_view() + result.success
                + result.failed,
            final(self).progress_view().success_view() == old(self).progress_view().success_view() + result.success,
            final(self).progress_view().failed_view() == old(self).progress_view().failed_view() + result.failed,
            final(self).progress_view().total_view() == old(self).progress_view().total_view(),
            final(self).checkpoint_view().job_id == old(self).checkpoint_view().job_id,
            final(self).checkpoint_view().last_offset == old(self).record_index_view(),
            final(self).checkpoint_view().total_processed == old(self).checkpoint_view().total_processed
                + result.success + result.failed,
            final(self).checkpoint_view().success_count == old(self).checkpoint_view().success_count + result.success,
            final(self).checkpoint_view().failed_count == old(self).checkpoint_view().failed_count + result.failed,
            final(self).checkpoint_view().failed_record_ids@.map_values(|s: String| s@) == old(
                self,
            ).checkpoint_view().failed_record_ids@.map_values(|s: String| s@) + failure_ids(result.failures@),
            final(self).record_index_view() == old(self).record_index_view(),
            final(self).batch_view() == old(self).batch_view(),
            final(self).batch_number_view() == old(self).batch_number_view(),
            final(self).purge_due_view() == old(self).purge_due_view(),
            same_plan(*final(self), *old(self)),
    {
        self.progress.record_batch(result.success, result.failed);
        let base = self.checkpoint.last_offset;
        let mut notes: Vec<AuditNote> = Vec::new();
        notes.push(
            AuditNote::BatchComplete {
                batch_number: self.batch_number,
                success_count: result.success,
                failure_count: result.failed,
            },
        );
        let mut ids: Vec<String> = Vec::new();
        let mut i: usize = 0;
        while i < result.failures.len()
            invariant
                i <= result.failures@.len(),
                notes@.len() == i + 1,
                notes@[0] matches AuditNote::BatchComplete { batch_number: b, success_count, failure_count } && b
                    == self.batch_number && success_count == result.success && failure_count == result.failed,
                forall|j: int|
                    0 <= j < result.failures@.len() ==> base + (#[trigger] result.failures@[j]).index <= usize::MAX,
                forall|j: int|
                    0 <= j < i ==> (#[trigger] notes@[j + 1] matches AuditNote::RecordFailure {
                        record_index,
                        record_id,
                        error,
                    } && record_index == base + result.failures@[j].index && record_id == result.failures@[j].id
                        && error == result.failures@[j].error),
                ids@.map_values(|s: String| s@) == failure_ids(result.failures@.take(i as int)),
            decreases result.failures@.len() - i,
        {
            let f = &result.failures[i];
            assert(result.failures@.take(i + 1).drop_last() =~= result.failures@.take(i as int));
            let ghost before = notes@;
            let id = match &f.id {
                Some(s) => Some(s.clone()),
                None => None,
            };
            notes.push(
                AuditNote::RecordFailure { record_index: base + f.index, record_id: id, error: f.error.clone() },
            );
            assert(forall|j: int| 0 <= j < before.len() ==> notes@[j] == before[j]);
            match &f.id {
                Some(s) => {
                    let ghost prev = ids@;
                    ids.push(s.clone());
                    assert(ids@.map_values(|s: String| s@) =~= prev.map_values(|s: String| s@).push(s@));
                },
                None => {},
            }
            i = i + 1;
        }
        assert(result.failures@.take(result.failures@.len() as int) =~= result.failures@);
        let ghost old_ids = self.checkpoint.failed_record_ids@;
        let ghost new_ids = ids@;
        self.checkpoint.update(self.record_index, result.success, result.failed, ids);
        assert((old_ids + new_ids).map_values(|s: String| s@) =~= old_ids.map_values(|s: String| s@)
            + new_ids.map_values(|s: String| s@));
        notes
    }

    /// The checkpoint, to be saved.
    pub fn checkpoint(&self) -> (c: &Checkpoint)
        ensures
            *c == self.checkpoint_view(),
    {
        &self.checkpoint
    }

    /// The progress counts.
    pub fn progress(&self) -> (p: &ProgressTracker)
        ensures
            *p == self.progress_view(),
    {
        &self.progress
    }

    /// A run that ends with no failed record deletes its checkpoint; one
    /// with failures keeps it for resuming.
    pub fn should_delete_checkpoint(&self) -> (b: bool)
        ensures
            b == (self.progress_view().failed_view() == 0),
    {
        self.progress.failed() == 0
    }
}

/// Where a turn of a run's loop leaves the batch: when taking in a record
/// filled it, it is sent (`sent`) and emptied; otherwise it stays, and
/// nothing is sent. The plan and the index stay either way.
pub open spec fn batch_turn(mid: Migration, after: Migration, sent: Option<Seq<Record>>) -> bool {
    &&& same_plan(after, mid)
    &&& after.record_index_view() == mid.record_index_view()
    &&& if mid.batch_view().len() >= mid.batch_size_view() {
        sent == Some(mid.batch_view()) && after.batch_view().len() == 0
    } else {
        sent is None && after.batch_view() == mid.batch_view()
    }
}

/// The records of the batches sent, one after another.
pub open spec fn sent_records(sent: Seq<Option<Seq<Record>>>) -> Seq<Record>
    decreases sent.len(),
{
    if sent.len() == 0 {
        Seq::empty()
    } else {
        sent_records(sent.drop_last()) + match sent.last() {
            Some(b) => b,
            None => Seq::empty(),
        }
    }
}

/// The number of batches sent.
pub open spec fn sent_count(sent: Seq<Option<Seq<Record>>>) -> nat
    decreases sent.len(),
{
    if sent.len() == 0 {
        0
    } else {
        sent_count(sent.drop_last()) + if sent.last() is Some {
            1nat
        } else {
            0nat
        }
    }
}

/// Each record of `out` is what the mapping makes of the record of `input`
/// at the same place.
pub open spec fn mapped_in_order(mapper: FieldMapper, input: Seq<Record>, out: Seq<Record>) -> bool {
    out.len() == input.len() && forall|j: int|
        0 <= j < out.len() ==> mapper.transforms(input[j], Ok::<Record, TransformError>(#[trigger] out[j]))
}

/// Each turn of the loop took in its record, mapped with no note, and left
/// the batch as `batch_turn` says.
#[verifier::opaque]
pub open spec fn turns_mapped(
    states: Seq<Migration>,
    mids: Seq<Migration>,
    records: Seq<Record>,
    notes: Seq<Option<AuditNote>>,
    sent: Seq<Option<Seq<Record>>>,
) -> bool {
    forall|k: int|
        #![trigger records[k]]
        0 <= k < records.len() ==> record_step(states[k], records[k], mids[k], notes[k]) && batch_turn(
            mids[k],
            states[k + 1],
            sent[k],
        ) && notes[k] is None
}

/// Resuming passes over what an earlier run did: taking in records one by
/// one from a run that has read nothing, each record before the resume
/// offset leaves the batch and the progress counts as they were and gives
/// no note, and the position counts every record.
pub proof fn lemma_resume_passes_over(
    states: Seq<Migration>,
    records: Seq<Record>,
    notes: Seq<Option<AuditNote>>,
)
    requires
        states.len() == records.len() + 1,
        notes.len() == records.len(),
        states[0].record_index_view() == 0,
        forall|i: int| 0 <= i < records.len() ==> #[trigger] record_step(states[i], records[i], states[i + 1], notes[i]),
    ensures
        forall|i: int| 0 <= i <= records.len() ==> #[trigger] states[i].record_index_view() == i && same_plan(states[i], states[0]),
        forall|i: int|
            0 <= i <= records.len() && i <= states[0].resume_offset_view() ==> #[trigger] states[i].batch_view()
                == states[0].batch_view() && states[i].progress_view() == states[0].progress_view(),
        forall|i: int| 0 <= i < records.len() && i < states[0].resume_offset_view() ==> #[trigger] notes[i] is None,
{
    assert forall|i: int| 0 <= i <= records.len() implies #[trigger] states[i].record_index_view() == i && same_plan(
        states[i],
        states[0],
    ) by {
        lemma_resume_prefix(states, records, notes, i);
    }
    assert forall|i: int|
        0 <= i <= records.len() && i <= states[0].resume_offset_view() implies #[trigger] states[i].batch_view()
            == states[0].batch_view() && states[i].progress_view() == states[0].progress_view() by {
        lemma_resume_prefix(states, records, notes, i);
    }
    assert forall|i: int| 0 <= i < records.len() && i < states[0].resume_offset_view() implies #[trigger] notes[i] is None by {
        lemma_resume_prefix(states, records, notes, i);
        assert(record_step(states[i], records[i], states[i + 1], notes[i]));
    }
}

proof fn lemma_resume_prefix(states: Seq<Migration>, records: Seq<Record>, notes: Seq<Option<AuditNote>>, i: int)
    requires
        states.len() == records.len() + 1,
        notes.len() == records.len(),
        states[0].record_index_view() == 0,
        forall|k: int| 0 <= k < records.len() ==> #[trigger] record_step(states[k], records[k], states[k + 1], notes[k]),
        0 <= i <= records.len(),
    ensures
        states[i].record_index_view() == i,
        same_plan(states[i], states[0]),
        i <= states[0].resume_offset_view() ==> states[i].batch_view() == states[0].batch_view()
            && states[i].progress_view() == states[0].progress_view(),
    decreases i,
{
    if i > 0 {
        let k = i - 1;
        lemma_resume_prefix(states, records, notes, k);
        assert(record_step(states[k], records[k], states[k + 1], notes[k]));
        assert(k + 1 == i);
    }
}

/// Where records start to count: the resume offset, or the number of
/// records when there are fewer.
pub open spec fn first_counted(offset: int, n: int) -> int {
    if n < offset {
        n
    } else {
        offset
    }
}

/// Batching: when a run that has read nothing takes in records that all
/// map, the records before the resume offset are passed over, and the
/// batches sent hold exactly the mapped records from the offset on, in
/// source order; each sent batch holds exactly the batch size, and what is
/// left for the last batch is less than a batch. So the `m` records from
/// the offset on fill `m / b` full batches and leave `m % b` for a last
/// one.
pub proof fn lemma_batches_in_order(
    states: Seq<Migration>,
    mids: Seq<Migration>,
    records: Seq<Record>,
    notes: Seq<Option<AuditNote>>,
    sent: Seq<Option<Seq<Record>>>,
)
    requires
        states.len() == records.len() + 1,
        mids.len() == records.len(),
        notes.len() == records.len(),
        sent.len() == records.len(),
        states[0].record_index_view() == 0,
        states[0].batch_view().len() == 0,
        states[0].batch_size_view() >= 1,
        forall|i: int|
            #![trigger records[i]]
            0 <= i < records.len() ==> record_step(states[i], records[i], mids[i], notes[i]) && batch_turn(
                mids[i],
                states[i + 1],
                sent[i],
            ),
        forall|i: int| #![trigger records[i]] 0 <= i < records.len() ==> notes[i] is None,
    ensures
        ({
            let k = first_counted(states[0].resume_offset_view(), records.len() as int);
            let m = (records.len() - k) as nat;
            let b = states[0].batch_size_view() as nat;
            &&& mapped_in_order(
                states[0].mapper_view(),
                records.skip(k),
                sent_records(sent) + states[records.len() as int].batch_view(),
            )
            &&& forall|i: int| 0 <= i < sent.len() ==> (#[trigger] sent[i] matches Some(x) ==> x.len() == b)
            &&& sent_count(sent) == m / b
            &&& states[records.len() as int].batch_view().len() == m % b
        }),
{
    let n = records.len() as int;
    let b = states[0].batch_size_view();
    let k = first_counted(states[0].resume_offset_view(), n);
    assert(turns_mapped(states, mids, records, notes, sent)) by {
        reveal(turns_mapped);
    }
    lemma_batches_prefix(states, mids, records, notes, sent, n);
    assert(records.subrange(k, n) =~= records.skip(k));
    assert(sent.take(n) =~= sent);
    assert forall|i: int| 0 <= i < sent.len() implies (#[trigger] sent[i] matches Some(x) ==> x.len() == b) by {
        lemma_batches_prefix(states, mids, records, notes, sent, i);
        let ri = records[i];
    }
    vstd::arithmetic::div_mod::lemma_fundamental_div_mod_converse(
        n - k,
        b,
        sent_count(sent) as int,
        states[n].batch_view().len() as int,
    );
}

proof fn lemma_batches_prefix(
    states: Seq<Migration>,
    mids: Seq<Migration>,
    records: Seq<Record>,
    notes: Seq<Option<AuditNote>>,
    sent: Seq<Option<Seq<Record>>>,
    i: int,
)
    requires
        states.len() == records.len() + 1,
        mids.len() == records.len(),
        notes.len() == records.len(),
        sent.len() == records.len(),
        states[0].record_index_view() == 0,
        states[0].batch_view().len() == 0,
        states[0].batch_size_view() >= 1,
        turns_mapped(states, mids, records, notes, sent),
        0 <= i <= records.len(),
    ensures
        states[i].record_index_view() == i,
        same_plan(states[i], states[0]),
        mapped_in_order(
            states[0].mapper_view(),
            records.subrange(first_counted(states[0].resume_offset_view(), i), i),
            sent_records(sent.take(i)) + states[i].batch_view(),
        ),
        sent_count(sent.take(i)) * states[0].batch_size_view() + states[i].batch_view().len() == i - first_counted(
            states[0].resume_offset_view(),
            i,
        ),
        states[i].batch_view().len() < states[0].batch_size_view(),
        i < records.len() ==> (sent[i] matches Some(x) ==> x.len() == states[0].batch_size_view()),
    decreases i,
{
    let b = states[0].batch_size_view();
    let m = states[0].mapper_view();
    let off = states[0].resume_offset_view();
    reveal(turns_mapped);
    if i > 0 {
        let p = i - 1;
        lemma_batches_prefix(states, mids, records, notes, sent, p);
        let rp = records[p];
        assert(record_step(states[p], records[p], mids[p], notes[p]) && batch_turn(mids[p], states[p + 1], sent[p]));
        assert(p + 1 == i);
        assert(notes[p] is None);
        let before = sent_records(sent.take(p)) + states[p].batch_view();
        assert(sent.take(i).drop_last() =~= sent.take(p));
        let after = sent_records(sent.take(i)) + states[i].batch_view();
        if p < off {
            assert(first_counted(off, p) == p && first_counted(off, i) == i);
            assert(mids[p].batch_view() == states[p].batch_view());
            assert(states[p].batch_view().len() == 0);
            assert(after =~= before);
            assert(records.subrange(i, i) =~= Seq::<Record>::empty());
            assert(records.subrange(p, p) =~= Seq::<Record>::empty());
        } else {
            let out = choose|out: Result<Record, TransformError>|
                states[p].mapper_view().transforms(records[p], out) && match out {
                    Ok(t) => notes[p] is None && mids[p].batch_view() == states[p].batch_view().push(t)
                        && mids[p].progress_view() == states[p].progress_view(),
                    Err(e) => (notes[p] matches Some(note) && is_record_failure(
                        note,
                        states[p].record_index_view(),
                        transform_message(e),
                    )) && mids[p].batch_view() == states[p].batch_view() && counted_failure(
                        mids[p].progress_view(),
                        states[p].progress_view(),
                    ),
                };
            let t = out->Ok_0;
            let lo = first_counted(off, p);
            assert(lo == off && first_counted(off, i) == off);
            assert(mids[p].batch_view() == states[p].batch_view().push(t));
            assert(records.subrange(lo, i) =~= records.subrange(lo, p).push(records[p]));
            assert(after =~= before.push(t));
            assert(mapped_in_order(m, records.subrange(lo, i), after)) by {
                assert forall|j: int| 0 <= j < after.len() implies m.transforms(
                    records.subrange(lo, i)[j],
                    Ok::<Record, TransformError>(#[trigger] after[j]),
                ) by {
                    if j < after.len() - 1 {
                        assert(after[j] == before[j]);
                        assert(records.subrange(lo, i)[j] == records.subrange(lo, p)[j]);
                    }
                }
            }
        }
        assert(sent_count(sent.take(i)) * b == (sent_count(sent.take(p)) + if sent[p] is Some {
            1int
        } else {
            0int
        }) * b);
        if sent[p] is Some {
            assert((sent_count(sent.take(p)) + 1) * b == sent_count(sent.take(p)) * b + b) by (nonlinear_arith);
        }
        if i < records.len() {
            let ri = records[i];
            assert(record_step(states[i], records[i], mids[i], notes[i]) && batch_turn(mids[i], states[i + 1], sent[i]));
            assert(notes[i] is None);
        }
    } else {
        assert(sent.take(0) =~= Seq::<Option<Seq<Record>>>::empty());
        assert(records.subrange(first_counted(off, 0), 0) =~= Seq::<Record>::empty());
        assert(sent_records(sent.take(0)) + states[0].batch_view() =~= Seq::<Record>::empty());
        if 0 < records.len() {
            let r0 = records[0];
            assert(record_step(states[0], records[0], mids[0], notes[0]) && batch_turn(mids[0], states[1], sent[0]));
        }
    }
}

/// A step of a run, as the caller drives it: a record taken in (with its
/// note), an extraction failure (with its note), a batch taken, a batch's
/// result taken in, or the target cleared at the end.
pub enum RunEvent {
    Extracted { record: Record, note: Option<AuditNote> },
    ExtractFailed { note: Option<AuditNote> },
    BatchTaken,
    BatchLoaded { result: LoadResult },
    Purged,
}

/// What a step does to the progress counts, as the step's function states
/// it: a taken-in record as `record_step` says; an extraction failure counts
/// a failure exactly when it gives a note; taking a batch or clearing the
/// target leaves the counts; a batch's result adds its failures.
pub open spec fn event_step(before: Migration, e: RunEvent, after: Migration) -> bool {
    match e {
        RunEvent::Extracted { record, note } => record_step(before, record, after, note),
        RunEvent::ExtractFailed { note } => match note {
            Some(_) => counted_failure(after.progress_view(), before.progress_view()),
            None => after.progress_view() == before.progress_view(),
        },
        RunEvent::BatchTaken => after.progress_view() == before.progress_view(),
        RunEvent::BatchLoaded { result } => after.progress_view().failed_view() == before.progress_view().failed_view()
            + result.failed,
        RunEvent::Purged => after.progress_view() == before.progress_view(),
    }
}

/// The failures a step reports: one for a failure note, and a batch's
/// failed records.
pub open spec fn event_failures(e: RunEvent) -> nat {
    match e {
        RunEvent::Extracted { note, .. } => if note is Some {
            1nat
        } else {
            0nat
        },
        RunEvent::ExtractFailed { note } => if note is Some {
            1nat
        } else {
            0nat
        },
        RunEvent::BatchLoaded { result } => result.failed as nat,
        _ => 0nat,
    }
}

/// The failures that a run's steps report.
pub open spec fn run_failures(events: Seq<RunEvent>) -> nat
    decreases events.len(),
{
    if events.len() == 0 {
        0
    } else {
        run_failures(events.drop_last()) + event_failures(events.last())
    }
}

/// A run keeps its checkpoint exactly when something failed: over any
/// sequence of steps, the failed count grows by the failures the steps
/// report, so a run that starts with none ends with none (and deletes its
/// checkpoint) exactly when no step reported a failure.
pub proof fn lemma_checkpoint_kept_iff_failure(states: Seq<Migration>, events: Seq<RunEvent>)
    requires
        states.len() == events.len() + 1,
        forall|i: int| 0 <= i < events.len() ==> #[trigger] event_step(states[i], events[i], states[i + 1]),
    ensures
        states[events.len() as int].progress_view().failed_view() == states[0].progress_view().failed_view()
            + run_failures(events),
        states[0].progress_view().failed_view() == 0 ==> (states[events.len() as int].progress_view().failed_view()
            == 0 <==> run_failures(events) == 0),
    decreases events.len(),
{
    let n = events.len() as int;
    if n > 0 {
        let k = n - 1;
        assert forall|i: int| 0 <= i < k implies #[trigger] event_step(states.take(n)[i], events.take(k)[i], states.take(n)[i + 1]) by {
            assert(event_step(states[i], events[i], states[i + 1]));
        }
        lemma_checkpoint_kept_iff_failure(states.take(n), events.take(k));
        assert(events.drop_last() =~= events.take(k));
        assert(event_step(states[k], events[k], states[k + 1]));
        assert(k + 1 == n);
        match events[k] {
            RunEvent::Extracted { record, note } => {
                if states[k].record_index_view() >= states[k].resume_offset_view() {
                    let out = choose|out: Result<Record, TransformError>|
                        states[k].mapper_view().transforms(record, out) && match out {
                            Ok(t) => note is None && states[n].batch_view() == states[k].batch_view().push(t)
                                && states[n].progress_view() == states[k].progress_view(),
                            Err(e) => (note matches Some(nt) && is_record_failure(
                                nt,
                                states[k].record_index_view(),
                                transform_message(e),
                            )) && states[n].batch_view() == states[k].batch_view() && counted_failure(
                                states[n].progress_view(),
                                states[k].progress_view(),
                            ),
                        };
                }
            },
            _ => {},
        }
    }
}

} // verus!
