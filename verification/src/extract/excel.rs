//! Excel extraction, which is not implemented yet: spreadsheets are to be
//! converted to CSV.

use vstd::prelude::*;
use crate::config::source::SourceConfig;
use crate::data::text::owned;
use crate::error::types::{ConfigError, ExtractError, is_validation, validation};

verus! {

/// Excel file extractor.
pub struct ExcelExtractor {}

impl Default for ExcelExtractor {
    fn default() -> (r: Self)
        ensures
            r == (ExcelExtractor {}),
    {
        ExcelExtractor {}
    }
}

impl ExcelExtractor {
    /// Creates a new Excel extractor.
    pub fn new() -> (e: Self) {
        ExcelExtractor {}
    }

    /// Unique identifier for this extractor.
    pub fn name(&self) -> (r: &'static str)
        ensures
            r@ == "excel"@,
    {
        "excel"
    }

    /// The source types this extractor handles.
    pub fn supported_types(&self) -> (r: Vec<&'static str>)
        ensures
            r@.len() == 3,
            r@[0]@ == "excel"@,
            r@[1]@ == "xlsx"@,
            r@[2]@ == "xls"@,
    {
        let mut v: Vec<&'static str> = Vec::new();
        v.push("excel");
        v.push("xlsx");
        v.push("xls");
        v
    }

    /// Validates the source configuration: an Excel source with a path.
    pub fn validate_config(&self, config: &SourceConfig) -> (r: Result<(), ConfigError>)
        ensures
            config is Excel && config->Excel_path@.len() == 0 ==> r is Err && is_validation(
                r->Err_0,
                "Excel path cannot be empty"@,
            ),
            !(config is Excel) ==> r is Err && is_validation(r->Err_0, "Invalid config type for Excel extractor"@),
            r is Ok <==> (config is Excel && config->Excel_path@.len() != 0),
    {
        match config {
            SourceConfig::Excel { path, .. } => {
                if path.as_str().is_empty() {
                    return Err(validation("Excel path cannot be empty"));
                }
                Ok(())
            },
            _ => Err(validation("Invalid config type for Excel extractor")),
        }
    }

    /// Extraction from spreadsheets is not implemented: always an
    /// unsupported-type error that asks for CSV.
    pub fn extract(&self, config: &SourceConfig) -> (r: ExtractError)
        ensures
            r matches ExtractError::UnsupportedType(m) && m@
                == "Excel extraction not yet implemented. Please convert to CSV format."@,
    {
        ExtractError::UnsupportedType(owned("Excel extraction not yet implemented. Please convert to CSV format."))
    }
}

} // verus!
