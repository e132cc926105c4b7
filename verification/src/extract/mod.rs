//! Extraction: CSV files, spreadsheets and REST APIs as sources of records.

pub mod csv;
pub mod excel;
pub mod rest_api;

pub use self::csv::CsvExtractor;
pub use excel::ExcelExtractor;
pub use rest_api::RestApiExtractor;
