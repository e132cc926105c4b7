use basevn_migro::cli::migrate::{
    audit_path, checkpoint_path, conflict_label, get_source_type, get_target_type, write_mode_for, AuditNote, Migration,
    WriteMode,
};
use basevn_migro::cli::status::{checkpoint_summary, is_checkpoint_file, newest_first, status_target, text_less, StatusTarget};
use basevn_migro::config::job::{
    AuditConfig, CheckpointConfig, ConflictStrategy, IncrementalConfig, JobConfig, JobMetadata, LoggingConfig,
    RetryConfig, SyncConfig, SyncMode,
};
use basevn_migro::config::env::{env_references, substitute_env};
use basevn_migro::config::loader::validate_config;
use basevn_migro::data::table::Table;
use basevn_migro::config::mapping::{FieldMap, MappingConfig, MissingRequiredBehavior, UnmappedFieldBehavior};
use basevn_migro::config::source::SourceConfig;
use basevn_migro::config::target::{AuthConfig, AuthType, BaseVnConfig, BaseVnOptions, TargetConfig};
use basevn_migro::data::record::{Record, Value};
use basevn_migro::error::types::{ConfigError, ExtractError};
use basevn_migro::load::traits::LoadResult;
use basevn_migro::operations::checkpoint::Checkpoint;

fn job(batch_size: usize) -> JobConfig {
    let mut options = BaseVnOptions::default();
    options.batch_size = batch_size;
    JobConfig {
        version: "1.0".into(),
        job: JobMetadata { id: "job-1".into(), name: "Job".into(), description: None },
        source: SourceConfig::Csv { path: "in.csv".into(), csv: None },
        target: TargetConfig::BaseVn {
            basevn: BaseVnConfig {
                base_url: "https://api.base.vn".into(),
                app: "app".into(),
                entity: "users".into(),
                auth: AuthConfig { auth_type: AuthType::AccessToken, token: Some("t".into()) },
                options,
            },
        },
        mapping: MappingConfig {
            fields: vec![FieldMap { source: "id".into(), target: "id".into(), required: true, default: None }],
            unmapped_fields: UnmappedFieldBehavior::Ignore,
            missing_required: MissingRequiredBehavior::Error,
        },
        sync: SyncConfig::default(),
        retry: RetryConfig::default(),
        logging: LoggingConfig::default(),
        audit: AuditConfig::default(),
        checkpoint: CheckpointConfig::default(),
    }
}

fn rec(id: &str) -> Record {
    let mut r = Record::new();
    r.insert("id", Value::String(id.into()));
    r
}

#[test]
fn type_names_and_paths() {
    assert_eq!(get_source_type(&SourceConfig::Csv { path: "a".into(), csv: None }), "csv");
    assert_eq!(get_source_type(&SourceConfig::Excel { path: "a".into(), excel: None }), "excel");
    assert_eq!(get_target_type(&job(1).target), "basevn");
    assert_eq!(checkpoint_path("j"), ".basevn-migro/checkpoints/j.json");
    assert_eq!(audit_path("j"), ".basevn-migro/logs/j_audit.jsonl");
}

#[test]
fn job_validation_errors() {
    let mut config = job(2);
    assert!(validate_config(&config).is_ok());
    config.mapping.fields.clear();
    match validate_config(&config) {
        Err(ConfigError::Validation(m)) => assert_eq!(m, "At least one field mapping is required"),
        _ => panic!("expected a validation error"),
    }
    config.job.name.clear();
    match validate_config(&config) {
        Err(ConfigError::Validation(m)) => assert_eq!(m, "job.name cannot be empty"),
        _ => panic!("expected a validation error"),
    }
}

#[test]
fn migration_batches_failures_and_checkpoint() {
    let (mut run, note) = Migration::start(job(2), false, None, Some(3)).unwrap();
    match note {
        Some(AuditNote::JobStart { source_type, target_type }) => {
            assert_eq!(source_type, "csv");
            assert_eq!(target_type, "basevn");
        }
        _ => panic!("expected a start note"),
    }
    assert!(run.on_record(rec("1")).is_none());
    match run.on_record(Record::new()) {
        Some(AuditNote::RecordFailure { record_index, error, .. }) => {
            assert_eq!(record_index, 1);
            assert_eq!(error, "Missing required field: id");
        }
        _ => panic!("expected a failure note"),
    }
    assert!(!run.batch_full());
    assert!(run.on_record(rec("3")).is_none());
    assert!(run.batch_full());
    let batch = run.take_batch();
    assert_eq!(batch.records.len(), 2);
    assert!(batch.purge_first);
    assert!(matches!(batch.write, WriteMode::Insert));
    let mut result = LoadResult::new(2);
    result.add_success();
    result.add_failure(1, Some("r3".into()), "dup".into());
    let notes = run.on_batch_loaded(&result);
    assert_eq!(notes.len(), 2);
    match &notes[0] {
        AuditNote::BatchComplete { batch_number, success_count, failure_count } => {
            assert_eq!((*batch_number, *success_count, *failure_count), (1, 1, 1));
        }
        _ => panic!("expected a batch note"),
    }
    match &notes[1] {
        AuditNote::RecordFailure { record_index, record_id, error } => {
            assert_eq!(*record_index, 1);
            assert_eq!(record_id.as_deref(), Some("r3"));
            assert_eq!(error, "dup");
        }
        _ => panic!("expected a failure note"),
    }
    assert_eq!(run.checkpoint().last_offset, 3);
    assert_eq!(run.checkpoint().failed_record_ids, vec!["r3".to_string()]);
    assert_eq!(run.progress().failed(), 2);
    assert_eq!(run.progress().total(), 3);
    assert!(!run.should_delete_checkpoint());
    let note = run.on_extract_error(&ExtractError::CsvParse { line: 4, message: "bad".into() });
    match note {
        Some(AuditNote::RecordFailure { record_index, error, .. }) => {
            assert_eq!(record_index, 3);
            assert_eq!(error, "Invalid CSV format at line 4: bad");
        }
        _ => panic!("expected a failure note"),
    }
    assert!(!run.has_pending());
    assert!(!run.take_purge());
}

#[test]
fn migration_resume_starts_at_checkpoint_offset() {
    let mut existing = Checkpoint::new("job-1".into());
    existing.update(40, 40, 0, vec![]);
    let (run, note) = Migration::start(job(10), true, Some(existing), None).unwrap();
    match note {
        Some(AuditNote::JobStart { source_type, .. }) => assert_eq!(source_type, "resume"),
        _ => panic!("expected a start note"),
    }
    assert_eq!(run.checkpoint().last_offset, 40);
    assert_eq!(run.progress().total(), 1000);
    let (run, note) = Migration::start(job(10), true, None, None).unwrap();
    assert!(note.is_none());
    assert_eq!(run.checkpoint().last_offset, 0);
    assert!(run.should_delete_checkpoint());
}

#[test]
fn resumed_run_passes_over_records_before_the_offset() {
    let mut existing = Checkpoint::new("job-1".into());
    existing.update(1, 1, 0, vec![]);
    let (mut run, _) = Migration::start(job(10), true, Some(existing), None).unwrap();
    assert!(run.passing_over());
    assert!(run.on_record(rec("first")).is_none());
    assert!(!run.has_pending());
    assert!(!run.passing_over());
    assert!(run.on_record(rec("second")).is_none());
    assert!(run.on_record(rec("third")).is_none());
    assert_eq!(run.record_index(), 3);
    let batch = run.take_batch();
    assert!(!batch.purge_first);
    assert_eq!(batch.records.len(), 2);
    assert_eq!(batch.records[0].get("id"), Some(&Value::String("second".into())));
    assert_eq!(batch.records[1].get("id"), Some(&Value::String("third".into())));
    let mut result = LoadResult::new(2);
    result.add_success();
    result.add_success();
    run.on_batch_loaded(&result);
    assert_eq!(run.checkpoint().last_offset, 3);
    assert_eq!(run.checkpoint().total_processed, 3);
}

#[test]
fn resumed_run_passes_over_extract_errors_before_the_offset() {
    let mut existing = Checkpoint::new("job-1".into());
    existing.update(1, 1, 0, vec![]);
    let (mut run, _) = Migration::start(job(10), true, Some(existing), None).unwrap();
    assert!(run.on_extract_error(&ExtractError::CsvParse { line: 2, message: "bad".into() }).is_none());
    assert_eq!(run.progress().failed(), 0);
    assert!(run.on_extract_error(&ExtractError::CsvParse { line: 3, message: "bad".into() }).is_some());
    assert_eq!(run.progress().failed(), 1);
}

#[test]
fn incremental_sync_upserts_by_key_field() {
    let mut config = job(1);
    config.sync = SyncConfig {
        mode: SyncMode::Incremental,
        incremental: Some(IncrementalConfig {
            key_field: "email".into(),
            conflict: ConflictStrategy::Skip,
            state_file: None,
        }),
    };
    let (mut run, _) = Migration::start(config.clone(), false, None, None).unwrap();
    assert!(run.on_record(rec("1")).is_none());
    let batch = run.take_batch();
    assert!(!batch.purge_first);
    match batch.write {
        WriteMode::Upsert { key_field, conflict } => {
            assert_eq!(key_field, "email");
            assert_eq!(conflict, ConflictStrategy::Skip);
        }
        WriteMode::Insert => panic!("expected an upsert"),
    }
    assert!(!run.take_purge());
    assert_eq!(conflict_label(ConflictStrategy::Skip), "skip");
    assert_eq!(conflict_label(ConflictStrategy::Update), "update");
    assert_eq!(conflict_label(ConflictStrategy::Error), "error");

    config.sync.incremental = None;
    match Migration::start(config.clone(), false, None, None) {
        Err(m) => assert_eq!(m, "Incremental sync requires key_field"),
        Ok(_) => panic!("expected an error"),
    }
    assert!(write_mode_for(&config.sync).is_err());
}

#[test]
fn full_sync_clears_the_target_once_before_inserting() {
    let (mut run, _) = Migration::start(job(1), false, None, None).unwrap();
    assert!(run.on_record(rec("1")).is_none());
    let first = run.take_batch();
    assert!(first.purge_first);
    assert!(run.on_record(rec("2")).is_none());
    let second = run.take_batch();
    assert!(!second.purge_first);
    assert!(!run.take_purge());

    let (mut empty_run, _) = Migration::start(job(1), false, None, None).unwrap();
    assert!(empty_run.take_purge());
    assert!(!empty_run.take_purge());

    let mut existing = Checkpoint::new("job-1".into());
    existing.update(1, 1, 0, vec![]);
    let (mut resumed, _) = Migration::start(job(1), true, Some(existing), None).unwrap();
    assert!(!resumed.take_purge());
}

#[test]
fn status_target_and_checkpoint_files() {
    match status_target(Some("j".into()), Some("custom.json".into())) {
        StatusTarget::File(p) => assert_eq!(p, "custom.json"),
        StatusTarget::ListAll => panic!("expected a file"),
    }
    match status_target(Some("j".into()), None) {
        StatusTarget::File(p) => assert_eq!(p, ".basevn-migro/checkpoints/j.json"),
        StatusTarget::ListAll => panic!("expected a file"),
    }
    assert!(matches!(status_target(None, None), StatusTarget::ListAll));
    assert!(is_checkpoint_file("job.json"));
    assert!(is_checkpoint_file("a.b.json"));
    assert!(!is_checkpoint_file(".json"));
    assert!(!is_checkpoint_file("job.json.tmp"));
    assert!(!is_checkpoint_file("json"));
}

#[test]
fn checkpoint_summary_lists_ten_ids() {
    let mut c = Checkpoint::new("j".into());
    let ids: Vec<String> = (0..12).map(|i| format!("id{}", i)).collect();
    c.update(12, 0, 12, ids);
    let summary = checkpoint_summary(&c);
    assert_eq!(summary.shown_ids.len(), 10);
    assert_eq!(summary.shown_ids[9], "id9");
    assert_eq!(summary.more_ids, 2);
    assert!(summary.has_failures);
}

#[test]
fn checkpoints_are_listed_newest_first() {
    let mut a = Checkpoint::new("a".into());
    a.timestamp = "2024-01-02T00:00:00+00:00".into();
    let mut b = Checkpoint::new("b".into());
    b.timestamp = "2024-03-01T00:00:00+00:00".into();
    let mut c = Checkpoint::new("c".into());
    c.timestamp = "2023-12-31T23:59:59+00:00".into();
    let sorted = newest_first(vec![("a.json".into(), a), ("b.json".into(), b), ("c.json".into(), c)]);
    let names: Vec<&str> = sorted.iter().map(|(n, _)| n.as_str()).collect();
    assert_eq!(names, vec!["b.json", "a.json", "c.json"]);
    assert!(text_less("abc", "abd"));
    assert!(text_less("ab", "abc"));
    assert!(!text_less("abc", "abc"));
    assert!(!text_less("b", "abc"));
}

#[test]
fn checkpoints_with_the_same_time_keep_their_order() {
    let mut entries = Vec::new();
    for (name, stamp) in [("x", "t2"), ("y", "t1"), ("z", "t2"), ("w", "t1")] {
        let mut c = Checkpoint::new(name.into());
        c.timestamp = stamp.into();
        entries.push((name.to_string(), c));
    }
    let sorted = newest_first(entries);
    let names: Vec<&str> = sorted.iter().map(|(n, _)| n.as_str()).collect();
    assert_eq!(names, vec!["x", "z", "y", "w"]);
}

#[test]
fn config_text_substitutes_environment_references() {
    let text = "token: \"${TOKEN}\"\nurl: ${BASE}/api\nkeep: ${MISSING} and ${open";
    assert_eq!(env_references(text), vec!["TOKEN".to_string(), "BASE".to_string(), "MISSING".to_string()]);
    let mut vars = Table::new();
    vars.insert("TOKEN".to_string(), "secret".to_string());
    vars.insert("BASE".to_string(), "https://api.base.vn".to_string());
    assert_eq!(
        substitute_env(text, &vars),
        "token: \"secret\"\nurl: https://api.base.vn/api\nkeep: ${MISSING} and ${open"
    );
    assert_eq!(substitute_env("$${A}}", &vars), "$${A}}");
    vars.insert("A".to_string(), "x".to_string());
    assert_eq!(substitute_env("$${A}}", &vars), "$x}");
    assert!(env_references("no references").is_empty());
}

#[test]
fn five_records_in_batches_of_two_send_two_full_batches_in_order() {
    let (mut run, _) = Migration::start(job(2), false, None, None).unwrap();
    let mut sent: Vec<Vec<String>> = Vec::new();
    for id in ["a", "b", "c", "d", "e"] {
        assert!(run.on_record(rec(id)).is_none());
        if run.batch_full() {
            let step = run.take_batch();
            let ids = step
                .records
                .iter()
                .map(|r| match r.get("id") {
                    Some(Value::String(s)) => s.clone(),
                    _ => panic!("expected an id"),
                })
                .collect();
            sent.push(ids);
        }
    }
    assert_eq!(sent, vec![vec!["a".to_string(), "b".to_string()], vec!["c".to_string(), "d".to_string()]]);
    assert!(run.has_pending());
    let last = run.take_batch();
    assert_eq!(last.records.len(), 1);
    assert_eq!(last.records[0].get("id"), Some(&Value::String("e".into())));
}
