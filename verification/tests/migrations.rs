use eventcore::evolution::{SchemaRegistry, VersionedEvent};
use eventcore::json::JsonValue;
use eventcore::migrations::{
    add_field, add_fields, boolean_to_string, combine_fields, combine_full_name, combine_with_separator,
    convert_field_type, flatten_fields, nest_fields, normalize_string, number_to_string, remove_field,
    remove_fields, rename_field, rename_fields, split_comma_separated, split_field, split_full_name,
    string_to_boolean, transform_array_field, transform_field, validate_and_normalize_field,
};
use eventcore::types::EventStoreError;

fn s(text: &str) -> JsonValue {
    JsonValue::String(text.to_string())
}

fn num(text: &str) -> JsonValue {
    JsonValue::Number(text.to_string())
}

fn obj(members: Vec<(&str, JsonValue)>) -> JsonValue {
    JsonValue::Object(members.into_iter().map(|(k, v)| (k.to_string(), v)).collect())
}

fn get<'a>(value: &'a JsonValue, key: &str) -> Option<&'a JsonValue> {
    match value {
        JsonValue::Object(members) => members.iter().rev().find(|(k, _)| k == key).map(|(_, v)| v),
        _ => None,
    }
}

fn double_number(v: JsonValue) -> Result<JsonValue, EventStoreError> {
    match &v {
        JsonValue::Number(n) => match n.parse::<i64>() {
            Ok(i) => Ok(JsonValue::Number((i * 2).to_string())),
            Err(_) => Ok(v),
        },
        _ => Ok(v),
    }
}

#[test]
fn test_helper_functions() {
    let result = add_field(obj(vec![("existing", s("value"))]), "new_field", &s("default"));
    assert_eq!(get(&result, "new_field"), Some(&s("default")));

    let result = remove_field(obj(vec![("to_remove", s("value")), ("keep", s("this"))]), "to_remove");
    assert!(get(&result, "to_remove").is_none());
    assert_eq!(get(&result, "keep"), Some(&s("this")));

    let result = rename_field(obj(vec![("old_name", s("value"))]), "old_name", "new_name");
    assert!(get(&result, "old_name").is_none());
    assert_eq!(get(&result, "new_name"), Some(&s("value")));

    let result = transform_field(obj(vec![("number", num("21"))]), "number", &double_number).unwrap();
    assert_eq!(get(&result, "number"), Some(&num("42")));
}

#[test]
fn test_enhanced_helper_functions() {
    let result = add_fields(
        obj(vec![("existing", s("value"))]),
        &[("field1".to_string(), s("default1")), ("field2".to_string(), num("42"))],
    );
    assert_eq!(get(&result, "field1"), Some(&s("default1")));
    assert_eq!(get(&result, "field2"), Some(&num("42")));
    assert_eq!(get(&result, "existing"), Some(&s("value")));

    let result = remove_fields(
        obj(vec![("remove1", s("gone1")), ("remove2", s("gone2")), ("keep", s("this"))]),
        &["remove1".to_string(), "remove2".to_string()],
    );
    assert!(get(&result, "remove1").is_none());
    assert!(get(&result, "remove2").is_none());
    assert_eq!(get(&result, "keep"), Some(&s("this")));

    let result = rename_fields(
        obj(vec![("old_name1", s("value1")), ("old_name2", s("value2")), ("unchanged", s("same"))]),
        &[
            ("old_name1".to_string(), "new_name1".to_string()),
            ("old_name2".to_string(), "new_name2".to_string()),
        ],
    );
    assert!(get(&result, "old_name1").is_none());
    assert!(get(&result, "old_name2").is_none());
    assert_eq!(get(&result, "new_name1"), Some(&s("value1")));
    assert_eq!(get(&result, "new_name2"), Some(&s("value2")));
    assert_eq!(get(&result, "unchanged"), Some(&s("same")));

    let result = nest_fields(
        obj(vec![("user_name", s("John")), ("user_age", num("30")), ("other", s("value"))]),
        "user",
        &[("user_name".to_string(), "name".to_string()), ("user_age".to_string(), "age".to_string())],
    );
    assert!(get(&result, "user_name").is_none());
    assert!(get(&result, "user_age").is_none());
    let user = get(&result, "user").expect("nested user");
    assert_eq!(get(user, "name"), Some(&s("John")));
    assert_eq!(get(user, "age"), Some(&num("30")));
    assert_eq!(get(&result, "other"), Some(&s("value")));

    let result = flatten_fields(
        obj(vec![("user", obj(vec![("name", s("John")), ("age", num("30"))])), ("other", s("value"))]),
        "user",
        "user",
    );
    assert!(get(&result, "user").is_none());
    assert_eq!(get(&result, "user_name"), Some(&s("John")));
    assert_eq!(get(&result, "user_age"), Some(&num("30")));
    assert_eq!(get(&result, "other"), Some(&s("value")));
}

#[test]
fn test_field_type_converters() {
    assert_eq!(number_to_string(num("42.5")).unwrap(), s("42.5"));
    assert_eq!(boolean_to_string(JsonValue::Bool(true)).unwrap(), s("true"));
    assert_eq!(string_to_boolean(s("true")).unwrap(), JsonValue::Bool(true));
    assert_eq!(string_to_boolean(s("false")).unwrap(), JsonValue::Bool(false));
    assert_eq!(normalize_string(s("  HELLO WORLD  ")).unwrap(), s("hello world"));
}

#[test]
fn test_field_splitters() {
    let result = split_full_name(s("John Doe")).unwrap();
    assert_eq!(result.len(), 2);
    assert_eq!(result[0], s("John"));
    assert_eq!(result[1], s("Doe"));

    let result = split_full_name(s("John Middle Doe")).unwrap();
    assert_eq!(result.len(), 2);
    assert_eq!(result[0], s("John"));
    assert_eq!(result[1], s("Middle Doe"));

    let result = split_comma_separated(s("apple, banana, cherry")).unwrap();
    assert_eq!(result.len(), 1);
    assert_eq!(result[0], JsonValue::Array(vec![s("apple"), s("banana"), s("cherry")]));
}

#[test]
fn test_field_combiners() {
    let result = combine_full_name(vec![s("John"), s("Doe")]).unwrap();
    assert_eq!(result, s("John Doe"));

    let result = combine_full_name(vec![s("John"), s("")]).unwrap();
    assert_eq!(result, s("John"));

    let result = combine_with_separator(", ", vec![s("apple"), s("banana"), s("cherry")]).unwrap();
    assert_eq!(result, s("apple, banana, cherry"));
}

#[test]
fn test_complex_migration_scenario() {
    let mut data = obj(vec![("id", s("user-123")), ("fullName", s("John Doe")), ("email", s("john@example.com"))]);

    data = rename_field(data, "fullName", "full_name");
    assert_eq!(get(&data, "full_name"), Some(&s("John Doe")));
    assert!(get(&data, "fullName").is_none());

    data = split_field(
        data,
        "full_name",
        &["first_name".to_string(), "last_name".to_string()],
        &split_full_name,
    )
    .unwrap();
    assert_eq!(get(&data, "first_name"), Some(&s("John")));
    assert_eq!(get(&data, "last_name"), Some(&s("Doe")));
    assert!(get(&data, "full_name").is_none());

    data = add_field(data, "version", &num("4"));
    assert_eq!(get(&data, "version"), Some(&num("4")));
    assert_eq!(get(&data, "first_name"), Some(&s("John")));
    assert_eq!(get(&data, "last_name"), Some(&s("Doe")));
    assert_eq!(get(&data, "id"), Some(&s("user-123")));
    assert_eq!(get(&data, "email"), Some(&s("john@example.com")));
}

struct TestVersionedEvent {
    id: String,
}

impl VersionedEvent for TestVersionedEvent {
    fn current_version() -> u32 {
        3
    }

    fn serialized_name() -> String {
        "TestVersionedEvent".to_string()
    }

    fn validate_schema(&self) -> Result<(), String> {
        if self.id.is_empty() {
            return Err("ID cannot be empty".to_string());
        }
        Ok(())
    }
}

#[test]
fn test_versioned_event_trait() {
    let event = TestVersionedEvent { id: "test-123".to_string() };
    assert_eq!(TestVersionedEvent::current_version(), 3);
    assert_eq!(TestVersionedEvent::serialized_name(), "TestVersionedEvent");
    assert!(event.validate_schema().is_ok());

    let invalid_event = TestVersionedEvent { id: String::new() };
    assert!(invalid_event.validate_schema().is_err());
}

#[test]
fn non_objects_pass_through_unchanged() {
    assert_eq!(add_field(num("1"), "x", &s("y")), num("1"));
    assert_eq!(remove_field(s("a"), "a"), s("a"));
    assert_eq!(transform_field(JsonValue::Null, "x", &double_number).unwrap(), JsonValue::Null);
}

#[test]
fn nesting_without_matches_adds_nothing_and_flattening_drops_non_objects() {
    let result = nest_fields(
        obj(vec![("a", num("1"))]),
        "target",
        &[("missing".to_string(), "m".to_string())],
    );
    assert!(get(&result, "target").is_none());
    assert_eq!(get(&result, "a"), Some(&num("1")));

    let result = flatten_fields(obj(vec![("user", s("not an object")), ("b", num("2"))]), "user", "");
    assert!(get(&result, "user").is_none());
    assert_eq!(get(&result, "b"), Some(&num("2")));

    let result = flatten_fields(obj(vec![("user", obj(vec![("name", s("Ann"))]))]), "user", "");
    assert_eq!(get(&result, "name"), Some(&s("Ann")));
}

#[test]
fn add_fields_keeps_existing_values() {
    let result = add_fields(obj(vec![("a", num("1"))]), &[("a".to_string(), num("9")), ("b".to_string(), num("2"))]);
    assert_eq!(get(&result, "a"), Some(&num("1")));
    assert_eq!(get(&result, "b"), Some(&num("2")));
}

#[test]
fn converters_errors_and_pass_through() {
    assert_eq!(string_to_boolean(s("YES")).unwrap(), JsonValue::Bool(true));
    assert_eq!(string_to_boolean(s("Off")).unwrap(), JsonValue::Bool(false));
    let error = string_to_boolean(s("maybe")).unwrap_err();
    assert_eq!(error, EventStoreError::SchemaEvolutionError("Cannot convert string 'maybe' to boolean".to_string()));
    assert_eq!(number_to_string(s("x")).unwrap(), s("x"));
    assert_eq!(boolean_to_string(num("1")).unwrap(), num("1"));
    assert_eq!(
        split_full_name(num("1")).unwrap_err(),
        EventStoreError::SchemaEvolutionError("Cannot split non-string value as full name".to_string())
    );
    assert_eq!(split_full_name(s("   ")).unwrap(), vec![s(""), s("")]);
    assert_eq!(split_full_name(s(" Prince ")).unwrap(), vec![s("Prince"), s("")]);
    assert_eq!(
        split_comma_separated(s("")).unwrap(),
        vec![JsonValue::Array(vec![s("")])]
    );
}

#[test]
fn combiners_edge_cases() {
    assert!(combine_full_name(vec![s("Only")]).is_err());
    assert_eq!(combine_full_name(vec![JsonValue::Null, s(" Doe ")]).unwrap(), s("Doe"));
    assert_eq!(combine_with_separator("-", vec![s("a"), JsonValue::Null, s("b")]).unwrap(), s("a--b"));
    assert_eq!(
        combine_with_separator("-", vec![s("a"), num("1")]).unwrap_err(),
        EventStoreError::SchemaEvolutionError("Can only combine string values".to_string())
    );
}

fn first_and_last(values: Vec<JsonValue>) -> Result<JsonValue, EventStoreError> {
    combine_full_name(values)
}

fn reverse_items(items: Vec<JsonValue>) -> Result<Vec<JsonValue>, EventStoreError> {
    Ok(items.into_iter().rev().collect())
}

#[test]
fn combining_converting_and_array_transforms() {
    let data = obj(vec![("first", s("Ada")), ("last", s("Lovelace"))]);
    let result = combine_fields(data, &["first".to_string(), "last".to_string()], "name", &first_and_last).unwrap();
    assert_eq!(get(&result, "name"), Some(&s("Ada Lovelace")));
    assert!(get(&result, "first").is_none());

    let result = convert_field_type(obj(vec![("flag", JsonValue::Bool(false))]), "flag", &boolean_to_string).unwrap();
    assert_eq!(get(&result, "flag"), Some(&s("false")));

    let result =
        validate_and_normalize_field(obj(vec![("tag", s("  MiXeD "))]), "tag", &normalize_string).unwrap();
    assert_eq!(get(&result, "tag"), Some(&s("mixed")));

    let result = transform_array_field(
        obj(vec![("xs", JsonValue::Array(vec![num("1"), num("2")]))]),
        "xs",
        &reverse_items,
    )
    .unwrap();
    assert_eq!(get(&result, "xs"), Some(&JsonValue::Array(vec![num("2"), num("1")])));

    let failed = convert_field_type(obj(vec![("b", s("maybe"))]), "b", &string_to_boolean);
    assert!(failed.is_err());
}

#[test]
fn schema_registry_keeps_a_chain_per_type() {
    let mut registry: SchemaRegistry<&str> = SchemaRegistry::new();
    registry.register_migration("Order".to_string(), 1, 2, "add currency");
    registry.register_migration("Order".to_string(), 2, 3, "rename total");
    registry.register_migration("Customer".to_string(), 1, 2, "split name");

    let chain = registry.get_chain("Order").expect("registered");
    let path = chain.find_migration_path(1, 3).expect("path");
    assert_eq!(path.len(), 2);
    assert_eq!(*path[0].2, "add currency");
    assert_eq!(*path[1].2, "rename total");
    assert!(registry.get_chain("Invoice").is_none());
    assert_eq!(registry.get_chain("Customer").unwrap().find_migration_path(1, 2).unwrap().len(), 1);
}
