use std::sync::Arc;

use basevn_migro::config::mapping::{FieldMap, MappingConfig, MissingRequiredBehavior, UnmappedFieldBehavior};
use basevn_migro::data::record::{Record, Value};
use basevn_migro::error::types::TransformError;
use basevn_migro::transform::field_filter::FieldFilter;
use basevn_migro::transform::field_mapping::FieldMapper;
use basevn_migro::transform::registry::{TransformerChainBuilder, TransformerRegistry};
use basevn_migro::transform::traits::{SharedTransformer, Transformer, TransformerChain};

fn s(v: &str) -> Value {
    Value::String(v.into())
}

fn number(n: f64) -> Value {
    Value::Number(format!("{}", n))
}

fn map(source: &str, target: &str, required: bool, default: Option<&str>) -> FieldMap {
    FieldMap {
        source: source.into(),
        target: target.into(),
        required,
        default: default.map(|d| d.to_string()),
    }
}

struct TestTransformer;

impl Transformer for TestTransformer {
    fn name(&self) -> &'static str {
        "test"
    }

    fn transform(&self, mut record: Record) -> Result<Record, TransformError> {
        record.insert("test_field", s("test_value"));
        Ok(record)
    }
}

struct Failing;

impl Transformer for Failing {
    fn name(&self) -> &'static str {
        "failing"
    }

    fn transform(&self, _record: Record) -> Result<Record, TransformError> {
        Err(TransformError::TransformFailed("boom".to_string()))
    }
}

fn shared<T: Transformer + 'static>(t: T) -> SharedTransformer {
    SharedTransformer { inner: Arc::new(t) }
}

#[test]
fn test_keep_fields() {
    let filter = FieldFilter::keep(vec!["name".to_string(), "email".to_string()]);

    let mut record = Record::new();
    record.insert("name", s("John Doe"));
    record.insert("email", s("john@example.com"));
    record.insert("age", number(30.0));
    record.insert("phone", s("123-456-7890"));

    let result = filter.transform(record).unwrap();

    assert_eq!(result.len(), 2);
    assert_eq!(result.get("name"), Some(&s("John Doe")));
    assert_eq!(result.get("email"), Some(&s("john@example.com")));
    assert_eq!(result.get("age"), None);
    assert_eq!(result.get("phone"), None);
}

#[test]
fn test_remove_fields() {
    let filter = FieldFilter::remove(vec!["password".to_string(), "ssn".to_string()]);

    let mut record = Record::new();
    record.insert("name", s("John Doe"));
    record.insert("email", s("john@example.com"));
    record.insert("password", s("secret123"));
    record.insert("ssn", s("123-45-6789"));

    let result = filter.transform(record).unwrap();

    assert_eq!(result.len(), 2);
    assert_eq!(result.get("name"), Some(&s("John Doe")));
    assert_eq!(result.get("email"), Some(&s("john@example.com")));
    assert_eq!(result.get("password"), None);
    assert_eq!(result.get("ssn"), None);
}

#[test]
fn test_keep_empty_list() {
    let filter = FieldFilter::keep(vec![]);

    let mut record = Record::new();
    record.insert("name", s("John Doe"));
    record.insert("email", s("john@example.com"));

    let result = filter.transform(record).unwrap();

    assert_eq!(result.len(), 0);
}

#[test]
fn test_remove_empty_list() {
    let filter = FieldFilter::remove(vec![]);

    let mut record = Record::new();
    record.insert("name", s("John Doe"));
    record.insert("email", s("john@example.com"));

    let result = filter.transform(record).unwrap();

    assert_eq!(result.len(), 2);
}

#[test]
fn test_keep_nonexistent_fields() {
    let filter = FieldFilter::keep(vec!["nonexistent".to_string()]);

    let mut record = Record::new();
    record.insert("name", s("John Doe"));

    let result = filter.transform(record).unwrap();

    assert_eq!(result.len(), 0);
}

#[test]
fn keep_and_remove_split_a_record() {
    let mut record = Record::new();
    record.insert("a", s("1"));
    record.insert("b", s("2"));
    record.insert("c", s("3"));
    let names = vec!["a".to_string(), "c".to_string(), "zzz".to_string()];
    let kept = FieldFilter::keep(names.clone()).transform(record.clone()).unwrap();
    let removed = FieldFilter::remove(names).transform(record).unwrap();
    assert_eq!(kept.len() + removed.len(), 3);
    assert_eq!(kept.get("a"), Some(&s("1")));
    assert_eq!(kept.get("c"), Some(&s("3")));
    assert_eq!(removed.get("b"), Some(&s("2")));
    assert_eq!(removed.get("a"), None);
}

#[test]
fn filter_drops_metadata() {
    let mut record = Record::new();
    record.insert("a", s("1"));
    record.add_metadata("source_line", "7".to_string());
    let result = FieldFilter::remove(vec![]).transform(record).unwrap();
    assert_eq!(result.metadata.len(), 0);
    assert_eq!(FieldFilter::keep(vec![]).name(), "field_filter");
}

#[test]
fn test_basic_field_mapping() {
    let mapper = FieldMapper::from_fields(vec![
        map("name", "full_name", false, None),
        map("email", "email_address", false, None),
    ]);

    let mut source = Record::new();
    source.insert("name", s("John Doe"));
    source.insert("email", s("john@example.com"));

    let result = mapper.transform(source).unwrap();

    assert_eq!(result.get("full_name"), Some(&s("John Doe")));
    assert_eq!(result.get("email_address"), Some(&s("john@example.com")));
}

#[test]
fn test_required_field_missing() {
    let mapper = FieldMapper::from_fields(vec![map("email", "email", true, None)]);

    let mut source = Record::new();
    source.insert("name", s("John"));

    let result = mapper.transform(source);
    assert!(result.is_err());
    assert!(matches!(result.unwrap_err(), TransformError::MissingRequiredField { .. }));
}

#[test]
fn test_default_value() {
    let mapper = FieldMapper::from_fields(vec![map("status", "status", false, Some("active"))]);

    let source = Record::new();
    let result = mapper.transform(source).unwrap();

    assert_eq!(result.get("status"), Some(&s("active")));
}

#[test]
fn test_default_value_for_empty() {
    let mapper = FieldMapper::from_fields(vec![map("status", "status", false, Some("active"))]);

    let mut source = Record::new();
    source.insert("status", s(""));

    let result = mapper.transform(source).unwrap();

    assert_eq!(result.get("status"), Some(&s("active")));
}

#[test]
fn test_metadata_preservation() {
    let mapper = FieldMapper::from_fields(vec![map("name", "full_name", false, None)]);

    let mut source = Record::new();
    source.insert("name", s("John"));
    source.add_metadata("source_line", "1".to_string());
    source.add_metadata("source_file", "data.csv".to_string());

    let result = mapper.transform(source).unwrap();

    assert_eq!(result.metadata.get("source_line"), Some(&"1".to_string()));
    assert_eq!(result.metadata.get("source_file"), Some(&"data.csv".to_string()));
}

#[test]
fn test_unmapped_fields_ignore() {
    let config = MappingConfig {
        fields: vec![map("name", "full_name", false, None)],
        unmapped_fields: UnmappedFieldBehavior::Ignore,
        missing_required: MissingRequiredBehavior::Error,
    };

    let mapper = FieldMapper::new(config);

    let mut source = Record::new();
    source.insert("name", s("John"));
    source.insert("extra_field", s("extra_value"));

    let result = mapper.transform(source);
    assert!(result.is_ok());
}

#[test]
fn test_unmapped_fields_error() {
    let config = MappingConfig {
        fields: vec![map("name", "full_name", false, None)],
        unmapped_fields: UnmappedFieldBehavior::Error,
        missing_required: MissingRequiredBehavior::Error,
    };

    let mapper = FieldMapper::new(config);

    let mut source = Record::new();
    source.insert("name", s("John"));
    source.insert("extra_field", s("extra_value"));

    let result = mapper.transform(source);
    assert!(result.is_err());
}

#[test]
fn unmapped_error_names_the_fields_in_record_order() {
    let mapper = FieldMapper::new(MappingConfig {
        fields: vec![map("name", "full_name", false, None)],
        unmapped_fields: UnmappedFieldBehavior::Error,
        missing_required: MissingRequiredBehavior::SkipRecord,
    });
    let mut source = Record::new();
    source.insert("zeta", s("1"));
    source.insert("name", s("John"));
    source.insert("alpha", s("2"));
    match mapper.transform(source) {
        Err(TransformError::TransformFailed(msg)) => {
            assert_eq!(msg, "Unmapped source fields: zeta, alpha");
        }
        other => panic!("unexpected {:?}", other),
    }
}

#[test]
fn unmapped_warn_behaves_like_ignore() {
    let mapper = FieldMapper::new(MappingConfig {
        fields: vec![map("name", "full_name", false, None)],
        unmapped_fields: UnmappedFieldBehavior::Warn,
        missing_required: MissingRequiredBehavior::Error,
    });
    let mut source = Record::new();
    source.insert("name", s("John"));
    source.insert("other", s("x"));
    let result = mapper.transform(source).unwrap();
    assert_eq!(result.len(), 1);
    assert_eq!(result.get("full_name"), Some(&s("John")));
}

#[test]
fn missing_optional_field_becomes_null_and_required_error_names_source() {
    let mapper = FieldMapper::from_fields(vec![
        map("nickname", "nick", false, None),
        map("email", "mail", true, None),
    ]);
    let mut source = Record::new();
    source.insert("email", s("a@b.c"));
    let result = mapper.transform(source).unwrap();
    assert_eq!(result.get("nick"), Some(&Value::Null));
    assert_eq!(result.get("mail"), Some(&s("a@b.c")));

    let mapper = FieldMapper::from_fields(vec![map("email", "mail", true, None)]);
    match mapper.transform(Record::new()) {
        Err(TransformError::MissingRequiredField { field }) => assert_eq!(field, "email"),
        other => panic!("unexpected {:?}", other),
    }
}

#[test]
fn required_field_with_default_uses_default() {
    let mapper = FieldMapper::from_fields(vec![map("dept", "department", true, Some("Unknown"))]);
    let result = mapper.transform(Record::new()).unwrap();
    assert_eq!(result.get("department"), Some(&s("Unknown")));
    assert_eq!(mapper.name(), "field_mapper");
}

#[test]
fn test_transformer_chain() {
    let chain = TransformerChain::new().with_transformer(shared(TestTransformer));

    let record = Record::new();
    let result = chain.transform(record).unwrap();

    assert_eq!(result.get("test_field"), Some(&s("test_value")));
}

#[test]
fn test_empty_chain() {
    let chain = TransformerChain::new();
    assert!(chain.is_empty());
    assert_eq!(chain.len(), 0);
}

#[test]
fn empty_chain_is_identity_and_failure_stops_chain() {
    let mut record = Record::new();
    record.insert("k", s("v"));
    let out = TransformerChain::default().transform(record.clone()).unwrap();
    assert_eq!(out, record);

    let chain = TransformerChain::new()
        .with_transformer(shared(Failing))
        .with_transformer(shared(TestTransformer));
    assert_eq!(chain.len(), 2);
    match chain.transform(record.clone()) {
        Err(TransformError::TransformFailed(m)) => assert_eq!(m, "boom"),
        other => panic!("unexpected {:?}", other),
    }
    match chain.transform_batch(vec![record.clone(), record]) {
        Err(TransformError::TransformFailed(m)) => assert_eq!(m, "boom"),
        other => panic!("unexpected {:?}", other),
    }
}

#[test]
fn batch_transform_stops_at_first_failure() {
    let mapper = FieldMapper::from_fields(vec![map("id", "id", true, None)]);
    let mut good = Record::new();
    good.insert("id", s("1"));
    let ok = mapper.transform_batch(vec![good.clone(), good.clone()]).unwrap();
    assert_eq!(ok.len(), 2);
    let err = mapper.transform_batch(vec![good, Record::new()]);
    assert!(matches!(err, Err(TransformError::MissingRequiredField { .. })));
}

fn empty_mapper() -> SharedTransformer {
    shared(FieldMapper::new(MappingConfig {
        fields: vec![],
        unmapped_fields: UnmappedFieldBehavior::Ignore,
        missing_required: MissingRequiredBehavior::Error,
    }))
}

#[test]
fn registry_test_registry_creation() {
    let registry = TransformerRegistry::new();
    assert!(registry.is_empty());
    assert_eq!(registry.len(), 0);
}

#[test]
fn registry_test_register_and_get() {
    let mut registry = TransformerRegistry::new();

    registry.register(empty_mapper());

    assert_eq!(registry.len(), 1);
    assert!(registry.has("field_mapper"));

    let retrieved = registry.get("field_mapper");
    assert!(retrieved.is_some());
}

#[test]
fn test_list_transformers() {
    let mut registry = TransformerRegistry::new();

    registry.register(empty_mapper());

    let list = registry.list();
    assert_eq!(list.len(), 1);
    assert!(list.contains(&"field_mapper".to_string()));
}

#[test]
fn test_remove_transformer() {
    let mut registry = TransformerRegistry::new();

    registry.register(empty_mapper());
    assert_eq!(registry.len(), 1);

    let removed = registry.remove("field_mapper");
    assert!(removed.is_some());
    assert_eq!(registry.len(), 0);
}

#[test]
fn test_chain_builder() {
    let mut registry = TransformerRegistry::new();

    registry.register(shared(FieldMapper::from_fields(vec![map("name", "full_name", false, None)])));

    let builder = TransformerChainBuilder::new(Arc::new(registry))
        .with_transformer("field_mapper")
        .unwrap();

    let mut record = Record::new();
    record.insert("name", s("John Doe"));

    let result = builder.transform(record).unwrap();
    assert_eq!(result.get("full_name"), Some(&s("John Doe")));
}

#[test]
fn test_chain_builder_not_found() {
    let registry = TransformerRegistry::new();

    let result = TransformerChainBuilder::new(Arc::new(registry)).with_transformer("nonexistent");

    assert!(result.is_err());
}

#[test]
fn chain_builder_reports_missing_name_and_registry_replaces_same_name() {
    let registry = TransformerRegistry::new();
    match TransformerChainBuilder::new(Arc::new(registry)).with_transformer("ghost") {
        Err(TransformError::TransformFailed(m)) => assert_eq!(m, "Transformer 'ghost' not found"),
        _ => panic!("expected a failure"),
    }

    let mut registry = TransformerRegistry::default();
    registry.register(empty_mapper());
    registry.register(empty_mapper());
    assert_eq!(registry.len(), 1);
    registry.register(shared(FieldFilter::keep(vec![])));
    assert_eq!(registry.len(), 2);
    registry.clear();
    assert!(registry.is_empty());
    assert!(registry.get("field_filter").is_none());
}
