use basevn_migro::config::source::{CsvOptions, PaginationConfig, PaginationType, RestApiOptions, SourceConfig};
use basevn_migro::data::record::Value;
use basevn_migro::data::table::Table;
use basevn_migro::error::types::{ConfigError, ExtractError};
use basevn_migro::extract::csv::{count_records, decode_cp1252, encoding_for, CsvExtractor, TextEncoding};
use basevn_migro::extract::excel::ExcelExtractor;
use basevn_migro::extract::rest_api::{HttpMethod, Pager, RestApiExtractor};

#[test]
fn method_names_are_matched_exactly() {
    assert_eq!(RestApiExtractor::method_named("GET").unwrap(), HttpMethod::Get);
    assert_eq!(RestApiExtractor::method_named("POST").unwrap(), HttpMethod::Post);
    match RestApiExtractor::method_named("get") {
        Err(ExtractError::ApiRequest(m)) => assert_eq!(m, "Unsupported HTTP method: get"),
        _ => panic!("expected an error"),
    }
}

fn s(v: &str) -> Value {
    Value::String(v.into())
}

fn csv_source(path: &str, options: Option<CsvOptions>) -> SourceConfig {
    SourceConfig::Csv { path: path.to_string(), csv: options }
}

fn obj(entries: Vec<(&str, Value)>) -> Value {
    Value::Object(entries.into_iter().map(|(k, v)| (k.to_string(), v)).collect())
}

fn api_options(url: &str, pagination: Option<PaginationConfig>) -> RestApiOptions {
    RestApiOptions {
        url: url.to_string(),
        method: "get".to_string(),
        headers: Table::new(),
        query_params: Table::new(),
        body: None,
        pagination,
    }
}

#[test]
fn test_excel_extractor_creation() {
    let extractor = ExcelExtractor::new();
    assert_eq!(extractor.name(), "excel");
    assert!(extractor.supported_types().contains(&"xlsx"));
    assert!(extractor.supported_types().contains(&"xls"));
}

#[test]
fn excel_extraction_is_not_implemented() {
    let extractor = ExcelExtractor::new();
    let config = SourceConfig::Excel { path: "test.xlsx".to_string(), excel: None };
    assert!(extractor.validate_config(&config).is_ok());
    assert!(matches!(extractor.extract(&config), ExtractError::UnsupportedType(_)));
    match extractor.validate_config(&csv_source("a.csv", None)) {
        Err(ConfigError::Validation(m)) => assert_eq!(m, "Invalid config type for Excel extractor"),
        _ => panic!("expected a validation error"),
    }
}

#[test]
fn test_rest_api_extractor_creation() {
    let extractor = RestApiExtractor::new();
    assert_eq!(extractor.name(), "rest_api");
    assert!(extractor.supported_types().contains(&"api"));
}

#[test]
fn test_extract_records_from_response() {
    let json = obj(vec![(
        "data",
        Value::Array(vec![
            obj(vec![("id", Value::Number("1".into())), ("name", s("John"))]),
            obj(vec![("id", Value::Number("2".into())), ("name", s("Jane"))]),
        ]),
    )]);

    let records = RestApiExtractor::extract_records_from_response(&json, "data").unwrap();
    assert_eq!(records.len(), 2);
}

#[test]
fn extract_records_follows_nested_paths_and_reports_errors() {
    let json = obj(vec![("result", obj(vec![("items", Value::Array(vec![s("x")]))]))]);
    assert_eq!(RestApiExtractor::extract_records_from_response(&json, "result.items").unwrap().len(), 1);
    match RestApiExtractor::extract_records_from_response(&json, "result.missing") {
        Err(ExtractError::ApiRequest(m)) => assert_eq!(m, "Path component 'missing' not found in response"),
        _ => panic!("expected an error"),
    }
    match RestApiExtractor::extract_records_from_response(&json, "result.items.deeper") {
        Err(ExtractError::ApiRequest(m)) => assert_eq!(m, "Cannot navigate path 'deeper' - not an object"),
        _ => panic!("expected an error"),
    }
    match RestApiExtractor::extract_records_from_response(&json, "result") {
        Err(ExtractError::ApiRequest(m)) => assert_eq!(m, "Final path value is not an array"),
        _ => panic!("expected an error"),
    }
    match RestApiExtractor::extract_records_from_response(&json, "") {
        Err(ExtractError::ApiRequest(m)) => {
            assert_eq!(m, "Response is not an array and no response_path specified")
        }
        _ => panic!("expected an error"),
    }
    let top = Value::Array(vec![s("a"), s("b")]);
    assert_eq!(RestApiExtractor::extract_records_from_response(&top, "").unwrap().len(), 2);
}

#[test]
fn single_response_takes_data_results_or_items() {
    let extractor = RestApiExtractor::new();
    let resp = obj(vec![
        ("data", s("not an array")),
        ("items", Value::Array(vec![obj(vec![("id", s("1"))]), s("skipped")])),
    ]);
    let records = extractor.single_response_records(&resp).unwrap();
    assert_eq!(records.len(), 1);
    assert_eq!(records[0].get("id"), Some(&s("1")));
    assert!(records[0].metadata.is_empty());
    match extractor.single_response_records(&obj(vec![])) {
        Err(ExtractError::ApiRequest(m)) => assert_eq!(m, "Response is not an array and no pagination configured"),
        _ => panic!("expected an error"),
    }
    match extractor.single_response_records(&s("text")) {
        Err(ExtractError::ApiRequest(m)) => assert_eq!(m, "Response is not an object or array"),
        _ => panic!("expected an error"),
    }
}

#[test]
fn offset_pagination_walks_pages_until_a_short_one() {
    let pagination = PaginationConfig {
        page_type: PaginationType::Offset,
        limit_param: "limit".into(),
        offset_param: Some("offset".into()),
        cursor_param: None,
        page_param: None,
        limit: 2,
        response_path: "data".into(),
        next_cursor_path: None,
    };
    let mut pager = Pager::start(&pagination).unwrap();
    let params = pager.page_params();
    assert_eq!(params, vec![("limit".to_string(), "2".to_string()), ("offset".to_string(), "0".to_string())]);
    let page1 = obj(vec![("data", Value::Array(vec![obj(vec![("n", s("a"))]), obj(vec![("n", s("b"))])]))]);
    let recs = pager.accept_page(&page1).unwrap();
    assert_eq!(recs.len(), 2);
    assert_eq!(recs[1].metadata.get("source_offset"), Some(&"1".to_string()));
    assert!(!pager.is_finished());
    assert_eq!(pager.page_params()[1].1, "2");
    let page2 = obj(vec![("data", Value::Array(vec![obj(vec![("n", s("c"))])]))]);
    let recs = pager.accept_page(&page2).unwrap();
    assert_eq!(recs[0].metadata.get("source_offset"), Some(&"2".to_string()));
    assert!(pager.is_finished());
}

#[test]
fn page_pagination_marks_page_numbers_and_stops_on_empty() {
    let pagination = PaginationConfig {
        page_type: PaginationType::Page,
        limit_param: "per_page".into(),
        offset_param: None,
        cursor_param: None,
        page_param: Some("page".into()),
        limit: 1,
        response_path: "items".into(),
        next_cursor_path: None,
    };
    let mut pager = Pager::start(&pagination).unwrap();
    assert_eq!(pager.page_params()[1], ("page".to_string(), "1".to_string()));
    let page = obj(vec![("items", Value::Array(vec![obj(vec![("n", s("a"))])]))]);
    let recs = pager.accept_page(&page).unwrap();
    assert_eq!(recs[0].metadata.get("source_page"), Some(&"1".to_string()));
    assert!(!pager.is_finished());
    let empty = obj(vec![("items", Value::Array(vec![]))]);
    assert!(pager.accept_page(&empty).unwrap().is_empty());
    assert!(pager.is_finished());

    let mut cursor = pagination.clone();
    cursor.page_type = PaginationType::Cursor;
    match Pager::start(&cursor) {
        Err(ExtractError::ApiRequest(m)) => assert_eq!(m, "cursor_param required for cursor pagination"),
        _ => panic!("expected an error"),
    }
    cursor.cursor_param = Some("cursor".into());
    match Pager::start(&cursor) {
        Err(ExtractError::ApiRequest(m)) => assert_eq!(m, "next_cursor_path required for cursor pagination"),
        _ => panic!("expected an error"),
    }
    let mut no_param = pagination;
    no_param.page_param = None;
    match Pager::start(&no_param) {
        Err(ExtractError::ApiRequest(m)) => assert_eq!(m, "page_param required for page pagination"),
        _ => panic!("expected an error"),
    }
}

#[test]
fn cursor_pagination_follows_next_cursors_until_none() {
    let pagination = PaginationConfig {
        page_type: PaginationType::Cursor,
        limit_param: "limit".into(),
        offset_param: None,
        cursor_param: Some("after".into()),
        page_param: None,
        limit: 2,
        response_path: "data".into(),
        next_cursor_path: Some("meta.next".into()),
    };
    let mut pager = Pager::start(&pagination).unwrap();
    assert_eq!(pager.page_params(), vec![("limit".to_string(), "2".to_string())]);
    let page1 = obj(vec![
        ("data", Value::Array(vec![obj(vec![("n", s("a"))])])),
        ("meta", obj(vec![("next", s("c1"))])),
    ]);
    let recs = pager.accept_page(&page1).unwrap();
    assert_eq!(recs.len(), 1);
    assert_eq!(recs[0].get("n"), Some(&s("a")));
    assert!(recs[0].metadata.is_empty());
    assert!(!pager.is_finished());
    assert_eq!(
        pager.page_params(),
        vec![("limit".to_string(), "2".to_string()), ("after".to_string(), "c1".to_string())]
    );
    let page2 = obj(vec![
        ("data", Value::Array(vec![obj(vec![("n", s("b"))]), obj(vec![("n", s("c"))])])),
        ("meta", obj(vec![("next", Value::Number("7".into()))])),
    ]);
    assert_eq!(pager.accept_page(&page2).unwrap().len(), 2);
    assert_eq!(pager.page_params()[1].1, "7");
    let page3 = obj(vec![("data", Value::Array(vec![obj(vec![("n", s("d"))])])), ("meta", obj(vec![("next", Value::Null)]))]);
    assert_eq!(pager.accept_page(&page3).unwrap().len(), 1);
    assert!(pager.is_finished());
}

#[test]
fn cursor_pagination_ends_on_an_empty_page_or_missing_cursor() {
    let pagination = PaginationConfig {
        page_type: PaginationType::Cursor,
        limit_param: "limit".into(),
        offset_param: None,
        cursor_param: Some("cursor".into()),
        page_param: None,
        limit: 5,
        response_path: "items".into(),
        next_cursor_path: Some("next".into()),
    };
    let mut pager = Pager::start(&pagination).unwrap();
    let page = obj(vec![("items", Value::Array(vec![obj(vec![("n", s("a"))])])), ("next", s(""))]);
    assert_eq!(pager.accept_page(&page).unwrap().len(), 1);
    assert!(pager.is_finished());
    let mut pager = Pager::start(&pagination).unwrap();
    let empty = obj(vec![("items", Value::Array(vec![])), ("next", s("x"))]);
    assert!(pager.accept_page(&empty).unwrap().is_empty());
    assert!(pager.is_finished());
    let mut pager = Pager::start(&pagination).unwrap();
    assert!(pager.page_fits(&page));
    match pager.accept_page(&s("oops")) {
        Err(ExtractError::ApiRequest(m)) => assert_eq!(m, "Cannot navigate path 'items' - not an object"),
        _ => panic!("expected an error"),
    }
    assert!(!pager.is_finished());
}

#[test]
fn csv_skip_rows_skips_lines_before_the_header() {
    let extractor = CsvExtractor::new();
    let options = CsvOptions {
        delimiter: ",".into(),
        quote_char: "\"".into(),
        has_header: true,
        skip_rows: 2,
        encoding: "utf-8".into(),
    };
    let config = csv_source("f.csv", Some(options));
    let records = extractor.extract_records(&config, "junk\njunk\nname\nA\nB").unwrap();
    assert_eq!(records.len(), 2);
    assert_eq!(records[0].get("name"), Some(&s("A")));
    assert_eq!(records[1].get("name"), Some(&s("B")));
    assert_eq!(records[0].len(), 1);
    let mut many = CsvOptions {
        delimiter: ",".into(),
        quote_char: "\"".into(),
        has_header: true,
        skip_rows: 9,
        encoding: "utf-8".into(),
    };
    let records = extractor.extract_records(&csv_source("f.csv", Some(many.clone())), "a\nb\n").unwrap();
    assert!(records.is_empty());
    many.skip_rows = 0;
    let records = extractor.extract_records(&csv_source("f.csv", Some(many)), "h\nv\n").unwrap();
    assert_eq!(records[0].get("h"), Some(&s("v")));
}

#[test]
fn rest_api_request_method_query_and_validation() {
    let extractor = RestApiExtractor::new();
    let mut options = api_options("http://x", None);
    assert_eq!(extractor.request_method(&options).unwrap(), HttpMethod::Get);
    options.method = "Post".into();
    assert_eq!(extractor.request_method(&options).unwrap(), HttpMethod::Post);
    options.method = "delete".into();
    match extractor.request_method(&options) {
        Err(ExtractError::ApiRequest(m)) => assert_eq!(m, "Unsupported HTTP method: DELETE"),
        _ => panic!("expected an error"),
    }
    options.query_params.insert("a".into(), "1".into());
    options.query_params.insert("limit".into(), "9".into());
    let q = extractor.query(&options, &vec![("limit".to_string(), "2".to_string())]);
    assert_eq!(q.len(), 2);
    assert_eq!(q.get("limit"), Some(&"2".to_string()));
    assert_eq!(q.get("a"), Some(&"1".to_string()));
    assert!(extractor.check_status(204).is_ok());
    match extractor.check_status(404) {
        Err(ExtractError::ApiRequest(m)) => assert_eq!(m, "HTTP error: 404 Not Found"),
        _ => panic!("expected an error"),
    }

    let config = SourceConfig::RestApi { rest_api: Box::new(api_options("", None)) };
    match extractor.validate_config(&config) {
        Err(ConfigError::Validation(m)) => assert_eq!(m, "API URL cannot be empty"),
        _ => panic!("expected a validation error"),
    }
    let pagination = PaginationConfig {
        page_type: PaginationType::Offset,
        limit_param: "limit".into(),
        offset_param: Some("offset".into()),
        cursor_param: None,
        page_param: None,
        limit: 10,
        response_path: String::new(),
        next_cursor_path: None,
    };
    let config = SourceConfig::RestApi { rest_api: Box::new(api_options("http://x", Some(pagination))) };
    match extractor.validate_config(&config) {
        Err(ConfigError::Validation(m)) => assert_eq!(m, "Pagination response_path cannot be empty"),
        _ => panic!("expected a validation error"),
    }
}

#[test]
fn csv_records_carry_line_and_file() {
    let extractor = CsvExtractor::new();
    let config = csv_source("people.csv", None);
    assert!(extractor.validate_config(&config).is_ok());
    let content = "name,email,age\nJohn Doe,john@example.com,30\nJane Smith,,25";
    let records = extractor.extract_records(&config, content).unwrap();
    assert_eq!(records.len(), 2);
    assert_eq!(records[0].get("name"), Some(&s("John Doe")));
    assert_eq!(records[0].get("age"), Some(&s("30")));
    assert_eq!(records[1].get("email"), Some(&Value::Null));
    assert_eq!(records[1].metadata.get("source_line"), Some(&"3".to_string()));
    assert_eq!(records[1].metadata.get("source_file"), Some(&"people.csv".to_string()));
}

#[test]
fn csv_without_header_names_columns_and_skips_rows() {
    let extractor = CsvExtractor::new();
    let options = CsvOptions {
        delimiter: ";".into(),
        quote_char: "\"".into(),
        has_header: false,
        skip_rows: 1,
        encoding: "utf-8".into(),
    };
    let config = csv_source("f.csv", Some(options));
    let records = extractor.extract_records(&config, "a;b\nc;d\ne;f").unwrap();
    assert_eq!(records.len(), 2);
    assert_eq!(records[0].get("col_0"), Some(&s("c")));
    assert_eq!(records[0].get("col_1"), Some(&s("d")));
    assert_eq!(records[0].metadata.get("source_line"), Some(&"1".to_string()));
}

#[test]
fn csv_row_with_wrong_length_is_an_error_with_its_line() {
    let extractor = CsvExtractor::new();
    let config = csv_source("f.csv", None);
    match extractor.extract_records(&config, "a,b\n1,2\n3,4,5\n") {
        Err(ExtractError::CsvParse { line, .. }) => assert_eq!(line, 3),
        _ => panic!("expected a parse error"),
    }
    match extractor.validate_config(&csv_source("", None)) {
        Err(ConfigError::Validation(m)) => assert_eq!(m, "CSV path cannot be empty"),
        _ => panic!("expected a validation error"),
    }
    assert!(extractor.source_path(&SourceConfig::Excel { path: "x".into(), excel: None }).is_err());
}

#[test]
fn csv_record_count_excludes_the_header() {
    assert_eq!(count_records("name,email\nJohn,john@example.com\nJane,jane@example.com"), 2);
    assert_eq!(count_records("name\n"), 0);
    assert_eq!(count_records(""), 0);
    assert_eq!(count_records("h\na\nb\n"), 2);
}

#[test]
fn csv_content_is_decoded_in_the_configured_encoding() {
    let extractor = CsvExtractor::new();
    let options = CsvOptions {
        delimiter: ",".into(),
        quote_char: "\"".into(),
        has_header: true,
        skip_rows: 0,
        encoding: "windows-1252".into(),
    };
    let config = csv_source("f.csv", Some(options.clone()));
    let text = extractor.decode_content(&config, b"name\nCaf\xE9").unwrap();
    assert_eq!(text, "name\nCaf\u{e9}");
    let records = extractor.extract_records(&config, &text).unwrap();
    assert_eq!(records.len(), 1);
    assert_eq!(records[0].get("name"), Some(&s("Caf\u{e9}")));

    assert_eq!(decode_cp1252(b"\x80\x93x\x94\x81"), "\u{20ac}\u{201c}x\u{201d}\u{81}");

    let utf8 = csv_source("g.csv", None);
    assert_eq!(extractor.decode_content(&utf8, "Ph\u{f2}ng".as_bytes()).unwrap(), "Ph\u{f2}ng");
    match extractor.decode_content(&utf8, b"Caf\xE9") {
        Err(ExtractError::FileRead { path, .. }) => assert_eq!(path, "g.csv"),
        _ => panic!("expected a read error"),
    }
    let mut other = options;
    other.encoding = "utf_8".into();
    let unknown = csv_source("f.csv", Some(other));
    assert_eq!(extractor.decode_content(&unknown, "Ph\u{f2}ng".as_bytes()).unwrap(), "Ph\u{f2}ng");
    assert!(matches!(extractor.decode_content(&unknown, b"Caf\xE9"), Err(ExtractError::FileRead { .. })));
    let excel = SourceConfig::Excel { path: "x".into(), excel: None };
    match extractor.decode_content(&excel, b"x") {
        Err(ExtractError::UnsupportedType(m)) => assert_eq!(m, "CSV extractor requires CSV source config"),
        _ => panic!("expected an unsupported type"),
    }
    match extractor.extract_records(&excel, "a\n1") {
        Err(ExtractError::UnsupportedType(m)) => assert_eq!(m, "CSV extractor requires CSV source config"),
        _ => panic!("expected an unsupported type"),
    }
    let records = extractor
        .records_from_rows(Ok(vec!["a".to_string()]), vec![Ok(vec!["1".to_string()]), Err("bad".to_string())], true, &"p".to_string());
    match records {
        Err(ExtractError::CsvParse { line, message }) => {
            assert_eq!(line, 3);
            assert_eq!(message, "bad");
        }
        _ => panic!("expected a parse error"),
    }
    let records = extractor.records_from_rows(Ok(vec!["x".to_string(), "y".to_string()]), vec![Ok(vec!["1".to_string()])], false, &"p".to_string()).unwrap();
    assert_eq!(records[0].get("col_0"), Some(&s("1")));
    assert_eq!(records[0].metadata.get("source_line"), Some(&"1".to_string()));
    assert!(matches!(
        extractor.records_from_rows(Err("no header".to_string()), vec![], true, &"p".to_string()),
        Err(ExtractError::CsvParse { line: 0, .. })
    ));
    assert_eq!(encoding_for("UTF-8"), Some(TextEncoding::Utf8));
    assert_eq!(encoding_for("Latin1"), Some(TextEncoding::Windows1252));
    assert_eq!(encoding_for("utf-16"), None);
}
