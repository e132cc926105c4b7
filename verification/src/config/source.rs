//! Source configuration types.

use vstd::prelude::*;
use crate::data::table::Table;
use crate::data::text::owned;

verus! {

/// Source configuration.
#[derive(Debug, Clone)]
pub enum SourceConfig {
    Csv { path: String, csv: Option<CsvOptions> },
    Excel { path: String, excel: Option<ExcelOptions> },
    RestApi { rest_api: Box<RestApiOptions> },
}

/// CSV-specific options.
#[derive(Debug, Clone)]
pub struct CsvOptions {
    pub delimiter: String,
    pub quote_char: String,
    pub has_header: bool,
    pub skip_rows: usize,
    pub encoding: String,
}

/// Default CSV delimiter.
pub fn default_csv_delimiter() -> (r: String)
    ensures
        r@ == ","@,
{
    owned(",")
}

/// Default CSV quote character.
pub fn default_csv_quote_char() -> (r: String)
    ensures
        r@ == "\""@,
{
    owned("\"")
}

/// CSV files have a header row by default.
pub fn default_csv_has_header() -> (r: bool)
    ensures
        r,
{
    true
}

/// Default CSV encoding.
pub fn default_csv_encoding() -> (r: String)
    ensures
        r@ == "utf-8"@,
{
    owned("utf-8")
}

/// Excel-specific options.
#[derive(Debug, Clone)]
pub struct ExcelOptions {
    pub sheet: String,
    pub header_row: usize,
    pub skip_rows: usize,
    pub range: Option<String>,
}

/// Default Excel sheet.
pub fn default_excel_sheet() -> (r: String)
    ensures
        r@ == "Sheet1"@,
{
    owned("Sheet1")
}

/// Default Excel header row (1-based).
pub fn default_excel_header_row() -> (r: usize)
    ensures
        r == 1,
{
    1
}

/// REST API source options.
#[derive(Debug, Clone)]
pub struct RestApiOptions {
    pub url: String,
    pub method: String,
    pub headers: Table<String>,
    pub query_params: Table<String>,
    pub body: Option<String>,
    pub pagination: Option<PaginationConfig>,
}

/// Default HTTP method.
pub fn default_rest_method() -> (r: String)
    ensures
        r@ == "GET"@,
{
    owned("GET")
}

/// Pagination configuration.
#[derive(Debug, Clone)]
pub struct PaginationConfig {
    pub page_type: PaginationType,
    pub limit_param: String,
    pub offset_param: Option<String>,
    pub cursor_param: Option<String>,
    pub page_param: Option<String>,
    pub limit: usize,
    pub response_path: String,
    pub next_cursor_path: Option<String>,
}

/// Default page size.
pub fn default_pagination_limit() -> (r: usize)
    ensures
        r == 100,
{
    100
}

/// Pagination type.
#[derive(Debug, Clone, Copy, PartialEq, Eq, Structural)]
pub enum PaginationType {
    Offset,
    Cursor,
    Page,
}

} // verus!
