use eventcore::json::JsonValue;
use eventcore::compatibility::{
    copy_type, describe_type, ChangeEffect, CompatibilityLevel, CompatibilityValidator, FieldConverter,
    JsonDefault, JsonSchema, MigrationStep, SchemaChange, SchemaFieldType,
};

fn schema(fields: &[(&str, SchemaFieldType)], required: &[&str]) -> JsonSchema {
    JsonSchema {
        fields: fields.iter().map(|(n, t)| (n.to_string(), copy_type(t))).collect(),
        required_fields: required.iter().map(|s| s.to_string()).collect(),
    }
}

#[test]
fn test_type_compatibility() {
    assert!(CompatibilityValidator::is_type_compatible(&SchemaFieldType::String, &SchemaFieldType::Number));

    assert!(CompatibilityValidator::is_type_compatible(&SchemaFieldType::Number, &SchemaFieldType::String));

    assert!(CompatibilityValidator::is_type_compatible(&SchemaFieldType::Boolean, &SchemaFieldType::String));

    assert!(!CompatibilityValidator::is_type_compatible(
        &SchemaFieldType::Array(Box::new(SchemaFieldType::String)),
        &SchemaFieldType::Object(Vec::new())
    ));
}

#[test]
fn type_compatibility_edge_cases() {
    assert!(!CompatibilityValidator::is_type_compatible(&SchemaFieldType::Number, &SchemaFieldType::Boolean));
    assert!(CompatibilityValidator::is_type_compatible(&SchemaFieldType::Null, &SchemaFieldType::Number));
    assert!(!CompatibilityValidator::is_type_compatible(&SchemaFieldType::Number, &SchemaFieldType::Null));
    assert!(CompatibilityValidator::is_type_compatible(
        &SchemaFieldType::Array(Box::new(SchemaFieldType::Number)),
        &SchemaFieldType::Array(Box::new(SchemaFieldType::String))
    ));
    let a = SchemaFieldType::Object(vec![
        ("x".to_string(), SchemaFieldType::Number),
        ("y".to_string(), SchemaFieldType::String),
    ]);
    let b = SchemaFieldType::Object(vec![
        ("y".to_string(), SchemaFieldType::String),
        ("x".to_string(), SchemaFieldType::Number),
    ]);
    assert!(CompatibilityValidator::is_type_compatible(&a, &b));
    let c = SchemaFieldType::Object(vec![
        ("y".to_string(), SchemaFieldType::Boolean),
        ("x".to_string(), SchemaFieldType::Number),
    ]);
    assert!(!CompatibilityValidator::is_type_compatible(&a, &c));
}

#[test]
fn test_compatibility_analysis_backward_compatible() {
    let old_schema = schema(&[("id", SchemaFieldType::String), ("name", SchemaFieldType::String)], &["id", "name"]);
    let new_schema = schema(
        &[("id", SchemaFieldType::String), ("name", SchemaFieldType::String), ("email", SchemaFieldType::String)],
        &["id", "name"],
    );

    let analysis = CompatibilityValidator::analyze_compatibility(&old_schema, &new_schema);

    assert_eq!(analysis.level, CompatibilityLevel::BackwardCompatible);
    assert_eq!(analysis.changes.len(), 1);
    assert!(matches!(
        analysis.changes[0],
        SchemaChange::FieldAdded { default_value: Some(JsonDefault::EmptyString), .. }
    ));
    assert!(analysis.auto_migration_possible);
    assert!(analysis.migration.is_some());
}

#[test]
fn test_compatibility_analysis_incompatible() {
    let old_schema = schema(
        &[("id", SchemaFieldType::String), ("name", SchemaFieldType::String), ("age", SchemaFieldType::Number)],
        &["id", "name", "age"],
    );
    let new_schema = schema(&[("id", SchemaFieldType::String), ("full_name", SchemaFieldType::String)], &["id", "full_name"]);

    let analysis = CompatibilityValidator::analyze_compatibility(&old_schema, &new_schema);

    assert_eq!(analysis.level, CompatibilityLevel::Incompatible);
    assert!(analysis.changes.len() > 1);
    assert!(!analysis.auto_migration_possible);
    assert!(!analysis.issues.is_empty());
    assert_eq!(analysis.issues[0], "Cannot auto-migrate removed field 'name' - may break old readers");
    assert!(analysis.migration.is_none());
}

#[test]
fn type_change_levels_and_plans() {
    let old_schema = schema(&[("age", SchemaFieldType::String)], &["age"]);
    let new_schema = schema(&[("age", SchemaFieldType::Number)], &[]);
    let analysis = CompatibilityValidator::analyze_compatibility(&old_schema, &new_schema);
    assert_eq!(analysis.changes.len(), 2);
    assert!(matches!(analysis.changes[0], SchemaChange::FieldTypeChanged { .. }));
    assert!(matches!(analysis.changes[1], SchemaChange::FieldOptionalityChanged { now_optional: true, .. }));
    assert_eq!(analysis.level, CompatibilityLevel::FullyCompatible);
    let steps = analysis.migration.unwrap();
    assert_eq!(steps.len(), 1);
    assert!(matches!(
        &steps[0],
        MigrationStep::ConvertField { field_name, converter: FieldConverter::StringToNumber } if field_name == "age"
    ));

    let forward = CompatibilityValidator::analyze_compatibility(
        &schema(&[("n", SchemaFieldType::Null)], &[]),
        &schema(&[("n", SchemaFieldType::Number)], &[]),
    );
    assert_eq!(forward.level, CompatibilityLevel::ForwardCompatible);
    assert_eq!(forward.issues, vec!["Cannot auto-convert field 'n' from Null to Number".to_string()]);
    assert!(!forward.auto_migration_possible);
}

#[test]
fn unchanged_schema_is_fully_compatible() {
    let s = schema(&[("id", SchemaFieldType::String)], &["id"]);
    let analysis = CompatibilityValidator::analyze_compatibility(&s, &s);
    assert_eq!(analysis.level, CompatibilityLevel::FullyCompatible);
    assert!(analysis.changes.is_empty());
    assert!(analysis.auto_migration_possible);
    assert!(analysis.migration.is_none());
}

#[test]
fn renames_and_nested_changes_in_plans() {
    let changes = vec![
        SchemaChange::FieldRenamed {
            old_name: "user_id".to_string(),
            new_name: "id".to_string(),
            field_type: SchemaFieldType::String,
        },
        SchemaChange::FieldAdded {
            field_name: "status".to_string(),
            field_type: SchemaFieldType::String,
            default_value: None,
        },
    ];
    assert_eq!(
        CompatibilityValidator::determine_compatibility_level(&changes),
        CompatibilityLevel::Incompatible
    );
    let (possible, migration, issues) = CompatibilityValidator::try_generate_migration(&changes);
    assert!(!possible);
    assert!(migration.is_none());
    assert_eq!(issues, vec!["Cannot auto-migrate added field 'status' without default value".to_string()]);

    let nested = vec![SchemaChange::NestedStructureChanged { field_name: "profile".to_string(), nested_changes: vec![] }];
    let (_, _, nested_issues) = CompatibilityValidator::try_generate_migration(&nested);
    assert_eq!(nested_issues, vec!["Cannot auto-migrate nested structure changes in field 'profile'".to_string()]);
    let _ = ChangeEffect::Breaking;
}

#[test]
fn type_descriptions() {
    let t = SchemaFieldType::Array(Box::new(SchemaFieldType::Object(vec![
        ("a".to_string(), SchemaFieldType::Number),
        ("b".to_string(), SchemaFieldType::Union(vec![SchemaFieldType::Null, SchemaFieldType::Boolean])),
    ])));
    assert_eq!(describe_type(&t), "Array(Object({\"a\": Number, \"b\": Union([Null, Boolean])}))");
}

fn field_type<'a>(schema: &'a JsonSchema, name: &str) -> Option<&'a SchemaFieldType> {
    schema.fields.iter().find(|(n, _)| n == name).map(|(_, t)| t)
}

fn text(s: &str) -> JsonValue {
    JsonValue::String(s.to_string())
}

#[test]
fn test_schema_extraction() {
    let json_data = JsonValue::Object(vec![
        ("id".to_string(), text("test-123")),
        ("name".to_string(), text("John Doe")),
        ("age".to_string(), JsonValue::Number("30".to_string())),
        ("active".to_string(), JsonValue::Bool(true)),
        ("tags".to_string(), JsonValue::Array(vec![text("user"), text("admin")])),
        (
            "profile".to_string(),
            JsonValue::Object(vec![
                ("email".to_string(), text("john@example.com")),
                ("phone".to_string(), JsonValue::Null),
            ]),
        ),
    ]);

    let schema = CompatibilityValidator::extract_schema(&json_data).unwrap();

    assert!(field_type(&schema, "id").is_some());
    assert!(field_type(&schema, "name").is_some());
    assert!(field_type(&schema, "age").is_some());
    assert!(field_type(&schema, "active").is_some());
    assert!(field_type(&schema, "tags").is_some());
    assert!(field_type(&schema, "profile").is_some());

    assert_eq!(field_type(&schema, "id"), Some(&SchemaFieldType::String));
    assert_eq!(field_type(&schema, "name"), Some(&SchemaFieldType::String));
    assert_eq!(field_type(&schema, "age"), Some(&SchemaFieldType::Number));
    assert_eq!(field_type(&schema, "active"), Some(&SchemaFieldType::Boolean));
    assert!(matches!(field_type(&schema, "tags"), Some(SchemaFieldType::Array(_))));
    assert!(matches!(field_type(&schema, "profile"), Some(SchemaFieldType::Object(_))));
}

#[test]
fn schema_extraction_details() {
    let json_data = JsonValue::Object(vec![
        ("empty".to_string(), JsonValue::Array(vec![])),
        ("missing".to_string(), JsonValue::Null),
        ("nested".to_string(), JsonValue::Object(vec![("flag".to_string(), JsonValue::Bool(false))])),
        ("empty".to_string(), JsonValue::Number("1".to_string())),
    ]);
    let schema = CompatibilityValidator::extract_schema(&json_data).unwrap();
    assert_eq!(
        schema.fields,
        vec![
            ("empty".to_string(), SchemaFieldType::Number),
            ("missing".to_string(), SchemaFieldType::Null),
            (
                "nested".to_string(),
                SchemaFieldType::Object(vec![("flag".to_string(), SchemaFieldType::Boolean)])
            ),
        ]
    );
    assert_eq!(schema.required_fields, vec!["empty".to_string(), "nested".to_string()]);

    let array = JsonValue::Object(vec![(
        "items".to_string(),
        JsonValue::Array(vec![JsonValue::Number("2.5".to_string()), text("x")]),
    )]);
    let schema = CompatibilityValidator::extract_schema(&array).unwrap();
    assert_eq!(
        schema.fields,
        vec![("items".to_string(), SchemaFieldType::Array(Box::new(SchemaFieldType::Number)))]
    );
}

#[test]
fn schema_extraction_refuses_non_objects() {
    let error = CompatibilityValidator::extract_schema(&JsonValue::Array(vec![])).unwrap_err();
    assert_eq!(error.message(), "deserialization failed: Can only extract schema from JSON objects");
    assert!(CompatibilityValidator::extract_schema(&JsonValue::Null).is_err());
}
