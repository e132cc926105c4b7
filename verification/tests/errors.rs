use basevn_migro::error::types::{ExtractError, TransformError};

#[test]
fn extract_error_messages() {
    let e = ExtractError::CsvParse { line: 12, message: "bad quote".into() };
    assert_eq!(e.message(), "Invalid CSV format at line 12: bad quote");
    assert_eq!(ExtractError::ApiRequest("x".into()).message(), "API request failed: x");
    assert_eq!(ExtractError::UnsupportedType("y".into()).message(), "Unsupported source type: y");
    assert_eq!(ExtractError::ExcelParse("z".into()).message(), "Invalid Excel format: z");
    let io = std::io::Error::new(std::io::ErrorKind::NotFound, "gone");
    assert_eq!(
        ExtractError::FileRead { path: "a.csv".into(), source: io }.message(),
        "Failed to read source file: a.csv"
    );
}

#[test]
fn transform_error_messages() {
    assert_eq!(
        TransformError::MissingRequiredField { field: "email".into() }.message(),
        "Missing required field: email"
    );
    assert_eq!(
        TransformError::InvalidValue { field: "age".into(), message: "not a number".into() }.message(),
        "Invalid field value for 'age': not a number"
    );
    assert_eq!(TransformError::TransformFailed("boom".into()).message(), "Transformation failed: boom");
}
