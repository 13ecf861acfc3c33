use lorm::dialect::{resolve_dialect, Dialect};
use lorm::errors::SchemaError;
use lorm::model::{get_field_name, EntityModel, FieldSpec};
use lorm::naming::{accessor_name, table_name};
use lorm::value::{SqlType, Value};

fn sqlite() -> Vec<String> {
    vec!["sqlite".to_string()]
}

fn nil_uuid() -> Value {
    Value::Text("00000000-0000-0000-0000-000000000000".to_string())
}

fn user_fields() -> Vec<FieldSpec> {
    vec![
        FieldSpec::new("id", SqlType::Text).pk().unset_when(nil_uuid()),
        FieldSpec::new("email", SqlType::Text).lookup_by(),
        FieldSpec::new("count", SqlType::Integer).nullable().readonly(),
        FieldSpec::new("tmp", SqlType::Integer).transient(),
        FieldSpec::new("created_at", SqlType::Text).created_at(),
        FieldSpec::new("updated_at", SqlType::Text).updated_at(),
    ]
}

#[test]
fn compiles_user_model() {
    let m = EntityModel::compile(&"User".to_string(), &None, &user_fields(), &sqlite()).unwrap();
    assert_eq!(m.table, "users");
    assert_eq!(m.dialect, Dialect::Sqlite);
    let names: Vec<&str> = m.columns.iter().map(|c| c.name.as_str()).collect();
    assert_eq!(names, vec!["id", "email", "count", "created_at", "updated_at"]);
    assert_eq!(m.pk, 0);
    assert_eq!(m.created_at, Some(3));
    assert_eq!(m.updated_at, Some(4));
    assert_eq!(m.record, "User");
}

#[test]
fn transient_field_has_no_column() {
    let m = EntityModel::compile(&"User".to_string(), &None, &user_fields(), &sqlite()).unwrap();
    assert_eq!(m.column_of("tmp"), None);
    assert_eq!(m.column_of("email"), Some(1));
    assert_eq!(m.columns.len(), 5);
}

#[test]
fn lookup_columns_are_marked_key_and_timestamps() {
    let m = EntityModel::compile(&"User".to_string(), &None, &user_fields(), &sqlite()).unwrap();
    assert!(m.is_lookup_column(0));
    assert!(m.is_lookup_column(1));
    assert!(!m.is_lookup_column(2));
    assert!(m.is_lookup_column(3));
    assert!(m.is_lookup_column(4));
    assert!(!m.is_lookup_column(5));
}

#[test]
fn missing_primary_key_is_rejected() {
    let fields = vec![FieldSpec::new("email", SqlType::Text)];
    let r = EntityModel::compile(&"User".to_string(), &None, &fields, &sqlite());
    assert!(matches!(r, Err(SchemaError::MissingPrimaryKey)));
}

#[test]
fn transient_primary_key_counts_as_missing() {
    let fields = vec![FieldSpec::new("id", SqlType::Integer).pk().transient()];
    let r = EntityModel::compile(&"User".to_string(), &None, &fields, &sqlite());
    assert!(matches!(r, Err(SchemaError::MissingPrimaryKey)));
}

#[test]
fn duplicate_primary_key_is_rejected() {
    let fields = vec![
        FieldSpec::new("id", SqlType::Integer).pk(),
        FieldSpec::new("other", SqlType::Integer).pk(),
    ];
    let r = EntityModel::compile(&"User".to_string(), &None, &fields, &sqlite());
    match r {
        Err(SchemaError::DuplicatePrimaryKey(n)) => assert_eq!(n, "other"),
        other => panic!("unexpected {:?}", other),
    }
}

#[test]
fn malformed_unset_rule_is_rejected() {
    let fields = vec![
        FieldSpec::new("id", SqlType::Integer).pk().unset_when(Value::Text("x".to_string())),
    ];
    let r = EntityModel::compile(&"User".to_string(), &None, &fields, &sqlite());
    match r {
        Err(SchemaError::MalformedUnsetRule(n)) => assert_eq!(n, "id"),
        other => panic!("unexpected {:?}", other),
    }
}

#[test]
fn first_fault_decides_the_error() {
    let fields = vec![
        FieldSpec::new("id", SqlType::Integer).pk(),
        FieldSpec::new("dup", SqlType::Integer).pk(),
        FieldSpec::new("bad", SqlType::Boolean).unset_when(Value::Null),
    ];
    let r = EntityModel::compile(&"User".to_string(), &None, &fields, &sqlite());
    assert!(matches!(r, Err(SchemaError::DuplicatePrimaryKey(ref n)) if n == "dup"));
}

#[test]
fn dialect_must_be_exactly_one_known_backend() {
    assert!(matches!(resolve_dialect(&vec![]), Err(SchemaError::NoDialect)));
    assert!(matches!(
        resolve_dialect(&vec!["postgres".to_string(), "sqlite".to_string()]),
        Err(SchemaError::MultipleDialects)
    ));
    assert!(matches!(
        resolve_dialect(&vec!["postgres".to_string(), "oracle".to_string()]),
        Err(SchemaError::UnknownDialect(ref n)) if n == "oracle"
    ));
    assert_eq!(resolve_dialect(&vec!["mysql".to_string()]).unwrap(), Dialect::Mysql);
    assert_eq!(resolve_dialect(&vec!["postgres".to_string()]).unwrap(), Dialect::Postgres);
}

#[test]
fn schema_error_for_bad_backend_comes_first() {
    let fields = vec![FieldSpec::new("email", SqlType::Text)];
    let r = EntityModel::compile(&"User".to_string(), &None, &fields, &vec![]);
    assert!(matches!(r, Err(SchemaError::NoDialect)));
}

#[test]
fn table_name_is_plural_table_case() {
    assert_eq!(table_name(&"UserDetail".to_string(), &None), "user_details");
    assert_eq!(table_name(&"AltUser".to_string(), &None), "alt_users");
    assert_eq!(table_name(&"UserDetail".to_string(), &Some("people".to_string())), "people");
}

#[test]
fn table_rename_overrides_derivation() {
    let m = EntityModel::compile(
        &"User".to_string(),
        &Some("members".to_string()),
        &user_fields(),
        &sqlite(),
    )
    .unwrap();
    assert_eq!(m.table, "members");
}

#[test]
fn column_name_is_snake_case_or_override() {
    assert_eq!(get_field_name(&FieldSpec::new("userId", SqlType::Integer)), "user_id");
    assert_eq!(get_field_name(&FieldSpec::new("UserDetail", SqlType::Integer)), "user_detail");
    assert_eq!(
        get_field_name(&FieldSpec::new("userId", SqlType::Integer).rename("uid")),
        "uid"
    );
}

#[test]
fn accessor_name_drops_id_suffix() {
    assert_eq!(accessor_name(&"owner_id".to_string()), "get_owner");
    assert_eq!(accessor_name(&"owner".to_string()), "get_owner");
    assert_eq!(accessor_name(&"id".to_string()), "get_id");
    assert_eq!(accessor_name(&"_id".to_string()), "get_");
}

#[test]
fn non_ascii_record_name_needs_a_rename() {
    let r = EntityModel::compile(&"Éxéese".to_string(), &None, &user_fields(), &sqlite());
    assert!(matches!(r, Err(SchemaError::NonAsciiRecordName(ref n)) if n == "Éxéese"));
    let m = EntityModel::compile(
        &"Éxéese".to_string(),
        &Some("things".to_string()),
        &user_fields(),
        &sqlite(),
    )
    .unwrap();
    assert_eq!(m.table, "things");
}

#[test]
fn key_that_is_a_timestamp_is_rejected() {
    let fields = vec![FieldSpec::new("id", SqlType::Text).pk().updated_at()];
    let r = EntityModel::compile(&"User".to_string(), &None, &fields, &sqlite());
    assert!(matches!(r, Err(SchemaError::ConflictingRoles(ref n)) if n == "id"));
}

#[test]
fn column_that_is_both_timestamps_is_rejected() {
    let fields = vec![
        FieldSpec::new("id", SqlType::Integer).pk(),
        FieldSpec::new("stamp", SqlType::Text).created_at().updated_at(),
    ];
    let r = EntityModel::compile(&"User".to_string(), &None, &fields, &sqlite());
    assert!(matches!(r, Err(SchemaError::ConflictingRoles(ref n)) if n == "stamp"));
}
