use basevn_migro::data::record::{Record, Value};

fn number(n: f64) -> Value {
    Value::Number(format!("{}", n))
}

#[test]
fn test_record_creation() {
    let mut record = Record::new();
    record.insert("name", Value::String("John Doe".into()));
    record.insert("age", number(30.0));

    assert_eq!(record.len(), 2);
    assert_eq!(record.get("name"), Some(&Value::String("John Doe".into())));
    assert_eq!(record.get("age"), Some(&number(30.0)));
}

#[test]
fn test_record_from_iter() {
    let record = Record::from_pairs(vec![
        ("name".to_string(), Value::String("Jane".into())),
        ("email".to_string(), Value::String("jane@example.com".into())),
    ]);

    assert_eq!(record.len(), 2);
    assert!(record.contains("name"));
    assert!(record.contains("email"));
}

#[test]
fn test_value_is_empty() {
    assert!(Value::Null.is_empty());
    assert!(Value::String("".into()).is_empty());
    assert!(!Value::String("test".into()).is_empty());
    assert!(Value::Array(vec![]).is_empty());
    assert!(!Value::Array(vec![Value::Null]).is_empty());
}

#[test]
fn test_value_as_string() {
    assert_eq!(Value::String("test".into()).as_string(), Some("test".into()));
    assert_eq!(number(42.5).as_string(), Some("42.5".into()));
    assert_eq!(Value::Bool(true).as_string(), Some("true".into()));
    assert_eq!(Value::Null.as_string(), None);
}

#[test]
fn value_as_string_writes_arrays_and_objects_as_json() {
    let arr = Value::Array(vec![Value::String("a".into()), Value::Bool(false), Value::Null]);
    assert_eq!(arr.as_string(), Some("[\"a\",false,null]".to_string()));
    let obj = Value::Object(vec![("k".to_string(), number(1.0))]);
    assert_eq!(obj.as_string(), Some("{\"k\":1.0}".to_string()));
    assert_eq!(Value::Bool(false).as_string(), Some("false".into()));
}

#[test]
fn insert_replaces_and_remove_deletes() {
    let mut record = Record::new();
    record.insert("a", Value::Bool(true));
    record.insert("a", Value::Bool(false));
    assert_eq!(record.len(), 1);
    assert_eq!(record.get("a"), Some(&Value::Bool(false)));
    assert_eq!(record.remove("a"), Some(Value::Bool(false)));
    assert_eq!(record.remove("a"), None);
    assert!(record.is_empty());
}

#[test]
fn from_pairs_later_pair_wins() {
    let record = Record::from_pairs(vec![
        ("x".to_string(), Value::String("first".into())),
        ("x".to_string(), Value::String("second".into())),
    ]);
    assert_eq!(record.len(), 1);
    assert_eq!(record.get("x"), Some(&Value::String("second".into())));
}

#[test]
fn metadata_is_kept_apart_from_fields() {
    let mut record = Record::new();
    record.add_metadata("source_line", "3".to_string());
    assert!(record.is_empty());
    assert_eq!(record.metadata.get("source_line"), Some(&"3".to_string()));
    let mut other = Record::new();
    other.copy_metadata_from(&record);
    assert_eq!(other.metadata.get("source_line"), Some(&"3".to_string()));
}

#[test]
fn fields_lists_each_name_once_in_order() {
    let mut record = Record::new();
    record.insert("b", Value::Null);
    record.insert("a", Value::Null);
    record.insert("b", Value::Bool(true));
    let names: Vec<String> = record.fields().into_iter().cloned().collect();
    assert_eq!(names, vec!["b".to_string(), "a".to_string()]);
}

#[test]
fn object_field_lookup_takes_the_last_entry() {
    let obj = Value::Object(vec![
        ("k".to_string(), Value::Bool(true)),
        ("k".to_string(), Value::Bool(false)),
    ]);
    assert_eq!(obj.get_field("k"), Some(&Value::Bool(false)));
    assert_eq!(obj.get_field("missing"), None);
    assert_eq!(Value::Null.get_field("k"), None);
    assert_eq!(Value::Number("12".into()).as_u64(), Some(12));
    assert_eq!(Value::Number("1.5".into()).as_u64(), None);
    assert_eq!(Value::Number("-3".into()).as_u64(), None);
}

#[test]
fn numbers_inside_arrays_and_objects_are_written_as_floats() {
    let arr = Value::Array(vec![number(30.0), number(1.5), number(1e20), number(0.0000001), number(-2.0)]);
    assert_eq!(arr.as_string(), Some("[30.0,1.5,1e+20,1e-7,-2.0]".to_string()));
    let nested = Value::Object(vec![("a".to_string(), Value::Array(vec![number(7.0)]))]);
    assert_eq!(nested.as_string(), Some("{\"a\":[7.0]}".to_string()));
    assert_eq!(number(30.0).as_string(), Some("30".into()));
}
