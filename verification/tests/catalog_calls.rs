use palmera::catalog::{
    collation_list, create_policy_table, database_list, foreign_key_list, function_list, index_info,
    index_list, index_xinfo, module_list, table_info, table_list, table_xinfo, ColumnType, DefaultValue,
};
use palmera::events::{BackupEvent, TerminateEvent};
use palmera::ident::check_identifier;
use palmera::query::put_field;
use palmera::storage::LocalStorage;
use palmera::value::{JsonMember, JsonValue};

#[test]
fn pragma_calls_about_a_name() {
    let calls = vec![
        (table_info("users"), "pragma_table_info"),
        (table_xinfo("users"), "pragma_table_xinfo"),
        (foreign_key_list("users"), "pragma_foreign_key_list"),
        (index_list("users"), "pragma_index_list"),
        (index_info("users"), "pragma_index_info"),
        (index_xinfo("users"), "pragma_index_xinfo"),
    ];
    for (call, function) in calls {
        assert_eq!(call.function, function);
        assert_eq!(call.argument.as_deref(), Some("users"));
    }
}

#[test]
fn pragma_calls_without_argument() {
    let calls = vec![
        (table_list(), "pragma_table_list"),
        (database_list(), "pragma_database_list"),
        (collation_list(), "pragma_collation_list"),
        (function_list(), "pragma_function_list"),
        (module_list(), "pragma_module_list"),
    ];
    for (call, function) in calls {
        assert_eq!(call.function, function);
        assert_eq!(call.argument, None);
    }
}

#[test]
fn policy_table_definition() {
    let t = create_policy_table();
    assert_eq!(t.name, "_policies");
    assert!(t.if_not_exists);
    let names: Vec<&str> = t.columns.iter().map(|c| c.name.as_str()).collect();
    assert_eq!(
        names,
        vec!["id", "name", "description", "is_enabled", "table_name", "operation", "policy_type", "using_expr", "check_expr"]
    );
    let id = &t.columns[0];
    assert!(id.primary_key && id.auto_increment && id.not_null && !id.unique);
    assert_eq!(id.column_type, ColumnType::Integer);
    let name = &t.columns[1];
    assert!(name.unique && name.not_null && !name.primary_key);
    assert_eq!(name.column_type, ColumnType::Text);
    assert!(!t.columns[2].not_null);
    assert!(matches!(t.columns[3].default_value, Some(DefaultValue::Integer(1))));
    assert_eq!(t.columns[3].column_type, ColumnType::Integer);
    assert!(t.columns[4].not_null);
    assert_eq!(
        t.columns[5].check.as_deref(),
        Some("operation IN ('select', 'update', 'insert', 'delete', 'all')")
    );
    assert!(matches!(&t.columns[6].default_value, Some(DefaultValue::Text(s)) if s == "PERMISSIVE"));
    assert_eq!(t.columns[6].check.as_deref(), Some("policy_type IN ('PERMISSIVE', 'RESTRICTIVE')"));
    assert!(!t.columns[7].not_null && !t.columns[8].not_null);
    assert_eq!(t.checks, vec!["using_expr IS NOT NULL OR check_expr IS NOT NULL".to_string()]);
}

#[test]
fn identifier_shape() {
    for good in ["a", "_", "a1", "_1", "Users", "user_roles", "A9_z"] {
        assert!(check_identifier(good), "{:?}", good);
    }
    for bad in ["", "1a", "a b", "a'", "a\"", "a;", "a-b", "a.b", "ä", "a\n", " a", "a`"] {
        assert!(!check_identifier(bad), "{:?}", bad);
    }
}

#[test]
fn put_field_appends_or_replaces() {
    let mut fields: Vec<JsonMember> = Vec::new();
    put_field(&mut fields, "name".to_string(), JsonValue::String("ada".to_string()));
    put_field(&mut fields, "email".to_string(), JsonValue::String("a@x".to_string()));
    put_field(&mut fields, "name".to_string(), JsonValue::String("grace".to_string()));
    assert_eq!(fields.len(), 2);
    assert_eq!(fields[0].name, "name");
    assert!(matches!(&fields[0].value, JsonValue::String(s) if s == "grace"));
    assert_eq!(fields[1].name, "email");
    assert!(matches!(&fields[1].value, JsonValue::String(s) if s == "a@x"));
}

#[test]
fn events_hold_their_values() {
    assert!(TerminateEvent::new(true).is_restart);
    assert!(!TerminateEvent::new(false).is_restart);
    let b = BackupEvent::new("nightly".to_string(), vec!["tmp".to_string()]);
    assert_eq!(b.name, "nightly");
    assert_eq!(b.exclude, vec!["tmp".to_string()]);
}

#[test]
fn local_storage_keeps_its_directory() {
    let storage = LocalStorage::new(std::path::PathBuf::from("/var/lib/files"));
    assert_eq!(storage.base_dir(), &std::path::PathBuf::from("/var/lib/files"));
}
