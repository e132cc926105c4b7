//! Job configuration structure and its defaults.

use vstd::prelude::*;
use crate::data::text::owned;
use super::{MappingConfig, SourceConfig, TargetConfig};

verus! {

/// Complete job configuration.
#[derive(Debug, Clone)]
pub struct JobConfig {
    pub version: String,
    pub job: JobMetadata,
    pub source: SourceConfig,
    pub target: TargetConfig,
    pub mapping: MappingConfig,
    pub sync: SyncConfig,
    pub retry: RetryConfig,
    pub logging: LoggingConfig,
    pub audit: AuditConfig,
    pub checkpoint: CheckpointConfig,
}

/// Job metadata.
#[derive(Debug, Clone)]
pub struct JobMetadata {
    pub id: String,
    pub name: String,
    pub description: Option<String>,
}

/// Sync mode configuration.
#[derive(Debug, Clone)]
pub struct SyncConfig {
    pub mode: SyncMode,
    pub incremental: Option<IncrementalConfig>,
}

impl Default for SyncConfig {
    fn default() -> (r: Self)
        ensures
            r.mode == SyncMode::Full,
            r.incremental is None,
    {
        SyncConfig { mode: SyncMode::Full, incremental: None }
    }
}

/// Sync mode.
#[derive(Debug, Clone, Copy, PartialEq, Eq, Structural)]
pub enum SyncMode {
    Full,
    Incremental,
}

/// Incremental sync configuration.
#[derive(Debug, Clone)]
pub struct IncrementalConfig {
    pub key_field: String,
    pub conflict: ConflictStrategy,
    pub state_file: Option<String>,
}

/// Conflict resolution strategy.
#[derive(Debug, Clone, Copy, PartialEq, Eq, Structural)]
pub enum ConflictStrategy {
    Skip,
    Update,
    Error,
}

/// Retry configuration.
#[derive(Debug, Clone)]
pub struct RetryConfig {
    pub max_attempts: usize,
    pub strategy: RetryStrategy,
    pub initial_delay_ms: u64,
    pub max_delay_ms: u64,
    /// Backoff multiplier, as decimal text (the way Rust displays an `f64`).
    pub multiplier: String,
}

impl Default for RetryConfig {
    fn default() -> (r: Self)
        ensures
            r.max_attempts == 3,
            r.strategy == RetryStrategy::Exponential,
            r.initial_delay_ms == 1000,
            r.max_delay_ms == 30000,
            r.multiplier@ == "2"@,
    {
        RetryConfig {
            max_attempts: default_max_attempts(),
            strategy: default_retry_strategy(),
            initial_delay_ms: default_initial_delay(),
            max_delay_ms: default_max_delay(),
            multiplier: default_multiplier(),
        }
    }
}

/// Retry strategy.
#[derive(Debug, Clone, Copy, PartialEq, Eq, Structural)]
pub enum RetryStrategy {
    Fixed,
    Exponential,
}

/// Logging configuration.
#[derive(Debug, Clone)]
pub struct LoggingConfig {
    pub level: LogLevel,
    pub format: LogFormat,
    pub file: Option<String>,
}

impl Default for LoggingConfig {
    fn default() -> (r: Self)
        ensures
            r.level == LogLevel::Info,
            r.format == LogFormat::Text,
            r.file is None,
    {
        LoggingConfig { level: default_log_level(), format: default_log_format(), file: None }
    }
}

/// Log level.
#[derive(Debug, Clone, Copy, PartialEq, Eq, Structural)]
pub enum LogLevel {
    Debug,
    Info,
    Warn,
    Error,
}

/// Log format.
#[derive(Debug, Clone, Copy, PartialEq, Eq, Structural)]
pub enum LogFormat {
    Text,
    Json,
}

/// Audit configuration.
#[derive(Debug, Clone)]
pub struct AuditConfig {
    pub enabled: bool,
    pub file: String,
    pub include_record_data: bool,
}

impl Default for AuditConfig {
    fn default() -> (r: Self)
        ensures
            r.enabled,
            r.file@ == "./logs/audit.jsonl"@,
            !r.include_record_data,
    {
        AuditConfig { enabled: default_audit_enabled(), file: default_audit_file(), include_record_data: false }
    }
}

/// Checkpoint configuration.
#[derive(Debug, Clone)]
pub struct CheckpointConfig {
    pub enabled: bool,
    pub file: String,
    pub interval: usize,
}

impl Default for CheckpointConfig {
    fn default() -> (r: Self)
        ensures
            r.enabled,
            r.file@ == "./.migro/checkpoint.json"@,
            r.interval == 100,
    {
        CheckpointConfig {
            enabled: default_checkpoint_enabled(),
            file: default_checkpoint_file(),
            interval: default_checkpoint_interval(),
        }
    }
}

/// Default schema version.
pub fn default_version() -> (r: String)
    ensures
        r@ == "1"@,
{
    owned("1")
}

/// Default sync mode.
pub fn default_sync_mode() -> (r: SyncMode)
    ensures
        r == SyncMode::Full,
{
    SyncMode::Full
}

/// Default conflict strategy of an incremental sync.
pub fn default_conflict() -> (r: ConflictStrategy)
    ensures
        r == ConflictStrategy::Skip,
{
    ConflictStrategy::Skip
}

/// Default maximum retry attempts.
pub fn default_max_attempts() -> (r: usize)
    ensures
        r == 3,
{
    3
}

/// Default retry strategy.
pub fn default_retry_strategy() -> (r: RetryStrategy)
    ensures
        r == RetryStrategy::Exponential,
{
    RetryStrategy::Exponential
}

/// Default initial retry delay in milliseconds.
pub fn default_initial_delay() -> (r: u64)
    ensures
        r == 1000,
{
    1000
}

/// Default maximum retry delay in milliseconds.
pub fn default_max_delay() -> (r: u64)
    ensures
        r == 30000,
{
    30000
}

/// Default backoff multiplier (2.0), as decimal text.
pub fn default_multiplier() -> (r: String)
    ensures
        r@ == "2"@,
{
    owned("2")
}

/// Default log level.
pub fn default_log_level() -> (r: LogLevel)
    ensures
        r == LogLevel::Info,
{
    LogLevel::Info
}

/// Default log format.
pub fn default_log_format() -> (r: LogFormat)
    ensures
        r == LogFormat::Text,
{
    LogFormat::Text
}

/// Audit logging is on by default.
pub fn default_audit_enabled() -> (r: bool)
    ensures
        r,
{
    true
}

/// Default audit log file.
pub fn default_audit_file() -> (r: String)
    ensures
        r@ == "./logs/audit.jsonl"@,
{
    owned("./logs/audit.jsonl")
}

/// Checkpointing is on by default.
pub fn default_checkpoint_enabled() -> (r: bool)
    ensures
        r,
{
    true
}

/// Default checkpoint file.
pub fn default_checkpoint_file() -> (r: String)
    ensures
        r@ == "./.migro/checkpoint.json"@,
{
    owned("./.migro/checkpoint.json")
}

/// Default checkpoint interval in records.
pub fn default_checkpoint_interval() -> (r: usize)
    ensures
        r == 100,
{
    100
}

} // verus!
