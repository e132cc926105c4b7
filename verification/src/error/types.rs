//! Error types of the pipeline stages.

use vstd::prelude::*;
use std::time::Duration;
use crate::data::text::{append, decimal, owned, usize_text};

verus! {

/// An I/O error, carried through unchanged.
#[verifier::external_type_specification]
#[verifier::external_body]
pub struct ExIoError(std::io::Error);

/// A YAML parse error, carried through unchanged.
#[verifier::external_type_specification]
#[verifier::external_body]
pub struct ExYamlError(serde_yaml::Error);

/// A JSON parse error, carried through unchanged.
#[verifier::external_type_specification]
#[verifier::external_body]
pub struct ExJsonError(serde_json::Error);

/// An HTTP client error, carried through unchanged.
#[verifier::external_type_specification]
#[verifier::external_body]
pub struct ExHttpError(reqwest::Error);

/// Main error type.
#[derive(Debug)]
pub enum MigroError {
    Config(ConfigError),
    Extract(ExtractError),
    Transform(TransformError),
    Load(LoadError),
    Io(std::io::Error),
    Other(String),
}

/// Configuration errors.
#[derive(Debug)]
pub enum ConfigError {
    FileRead { path: String, source: std::io::Error },
    YamlParse(serde_yaml::Error),
    JsonParse(serde_json::Error),
    Validation(String),
    MissingField { field: String },
}

/// Extraction errors.
#[derive(Debug)]
pub enum ExtractError {
    FileRead { path: String, source: std::io::Error },
    CsvParse { line: usize, message: String },
    ExcelParse(String),
    ApiRequest(String),
    UnsupportedType(String),
}

/// Transformation errors.
#[derive(Debug)]
pub enum TransformError {
    MissingRequiredField { field: String },
    InvalidValue { field: String, message: String },
    TransformFailed(String),
}

/// Loading errors.
#[derive(Debug)]
pub enum LoadError {
    Connection(String),
    Auth(String),
    ApiRequest(String),
    RateLimit {
        /// Server-provided retry delay.
        retry_after: Option<Duration>,
    },
    Validation(String),
    Network(reqwest::Error),
}

/// Record-level error with context.
#[derive(Debug, Clone)]
pub struct RecordError {
    pub offset: usize,
    pub key: Option<String>,
    pub error: String,
}

/// The error is a validation error whose message is `msg`.
pub open spec fn is_validation(e: ConfigError, msg: Seq<char>) -> bool {
    e matches ConfigError::Validation(m) && m@ == msg
}

/// A validation error with the given message.
pub fn validation(msg: &str) -> (e: ConfigError)
    ensures
        is_validation(e, msg@),
{
    ConfigError::Validation(crate::data::text::owned(msg))
}

/// The message of an extraction error.
pub open spec fn extract_message(e: ExtractError) -> Seq<char> {
    match e {
        ExtractError::FileRead { path, .. } => "Failed to read source file: "@ + path@,
        ExtractError::CsvParse { line, message } => "Invalid CSV format at line "@ + decimal(line as nat) + ": "@
            + message@,
        ExtractError::ExcelParse(m) => "Invalid Excel format: "@ + m@,
        ExtractError::ApiRequest(m) => "API request failed: "@ + m@,
        ExtractError::UnsupportedType(m) => "Unsupported source type: "@ + m@,
    }
}

impl ExtractError {
    /// The error's message.
    pub fn message(&self) -> (r: String)
        ensures
            r@ == extract_message(*self),
    {
        match self {
            ExtractError::FileRead { path, .. } => {
                let mut r = owned("Failed to read source file: ");
                append(&mut r, path.as_str());
                r
            },
            ExtractError::CsvParse { line, message } => {
                let mut r = owned("Invalid CSV format at line ");
                let n = usize_text(*line);
                append(&mut r, n.as_str());
                append(&mut r, ": ");
                append(&mut r, message.as_str());
                r
            },
            ExtractError::ExcelParse(m) => {
                let mut r = owned("Invalid Excel format: ");
                append(&mut r, m.as_str());
                r
            },
            ExtractError::ApiRequest(m) => {
                let mut r = owned("API request failed: ");
                append(&mut r, m.as_str());
                r
            },
            ExtractError::UnsupportedType(m) => {
                let mut r = owned("Unsupported source type: ");
                append(&mut r, m.as_str());
                r
            },
        }
    }
}

/// The message of a transformation error.
pub open spec fn transform_message(e: TransformError) -> Seq<char> {
    match e {
        TransformError::MissingRequiredField { field } => "Missing required field: "@ + field@,
        TransformError::InvalidValue { field, message } => "Invalid field value for '"@ + field@ + "': "@ + message@,
        TransformError::TransformFailed(m) => "Transformation failed: "@ + m@,
    }
}

impl TransformError {
    /// The error's message.
    pub fn message(&self) -> (r: String)
        ensures
            r@ == transform_message(*self),
    {
        match self {
            TransformError::MissingRequiredField { field } => {
                let mut r = owned("Missing required field: ");
                append(&mut r, field.as_str());
                r
            },
            TransformError::InvalidValue { field, message } => {
                let mut r = owned("Invalid field value for '");
                append(&mut r, field.as_str());
                append(&mut r, "': ");
                append(&mut r, message.as_str());
                r
            },
            TransformError::TransformFailed(m) => {
                let mut r = owned("Transformation failed: ");
                append(&mut r, m.as_str());
                r
            },
        }
    }
}

} // verus!
