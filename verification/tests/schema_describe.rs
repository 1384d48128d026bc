use palmera::policy::{PolicyKind, PolicyScope};
use palmera::schema::{
    describe, ColumnDetails, GenerationKind, Policy, SchemaError, TableDetails, TableOutput,
};
use palmera::text::split_text;

fn column(id: i64, name: &str, data_type: &str) -> ColumnDetails {
    ColumnDetails {
        column_id: Some(id),
        column_name: name.to_string(),
        data_type: data_type.to_string(),
        is_not_null: 0,
        default_value: None,
        is_primary_key: 0,
        primary_key_order: Some(0),
        generated_column_type: Some(0),
        is_foreign_key: 0,
        reference_table: None,
        reference_column: None,
        foreign_key_on_update: None,
        foreign_key_on_delete: None,
        part_of_index: None,
    }
}

fn policy(id: i64, name: &str, operation: &str, kind: &str, using_expr: Option<&str>, check_expr: Option<&str>) -> Policy {
    Policy {
        id,
        name: Some(name.to_string()),
        description: None,
        is_enabled: 1,
        operation: Some(operation.to_string()),
        policy_type: Some(kind.to_string()),
        using_expr: using_expr.map(|s| s.to_string()),
        check_expr: check_expr.map(|s| s.to_string()),
    }
}

fn users_columns() -> Vec<ColumnDetails> {
    let mut id = column(0, "id", "INTEGER");
    id.is_primary_key = 1;
    id.primary_key_order = Some(1);
    let mut email = column(1, "email", "TEXT");
    email.is_not_null = 1;
    email.part_of_index = Some("idx_users_email,sqlite_autoindex_users_1".to_string());
    let mut role = column(2, "role_id", "INTEGER");
    role.is_foreign_key = 1;
    role.reference_table = Some("roles".to_string());
    role.reference_column = Some("id".to_string());
    role.foreign_key_on_update = Some("CASCADE".to_string());
    role.foreign_key_on_delete = Some("SET NULL".to_string());
    vec![id, email, role]
}

fn users(columns: Vec<ColumnDetails>, policies: Vec<Policy>) -> Option<TableOutput> {
    Some(TableOutput {
        table_details: TableDetails {
            name: "users".to_string(),
            kind: Some("table".to_string()),
            schema: Some("main".to_string()),
            sql: Some("CREATE TABLE users (...)".to_string()),
            policies,
            columns,
        },
    })
}

#[test]
fn describes_users_end_to_end() {
    let t = describe(&users(users_columns(), Vec::new())).unwrap();
    assert_eq!(t.name, "users");
    assert_eq!(t.schema, "main");
    assert_eq!(t.origin_sql.as_deref(), Some("CREATE TABLE users (...)"));
    assert_eq!(t.columns.len(), 3);
    let id = &t.columns[0];
    assert_eq!(id.name, "id");
    assert!(id.is_primary_key);
    assert_eq!(id.primary_key_order, Some(1));
    assert!(id.foreign_key.is_none());
    let email = &t.columns[1];
    assert_eq!(email.name, "email");
    assert!(email.is_not_null);
    assert!(!email.is_primary_key);
    assert_eq!(email.primary_key_order, None);
    assert_eq!(email.index_membership, vec!["idx_users_email".to_string(), "sqlite_autoindex_users_1".to_string()]);
    let role = &t.columns[2];
    assert_eq!(role.name, "role_id");
    let fk = role.foreign_key.as_ref().unwrap();
    assert_eq!(fk.references_table, "roles");
    assert_eq!(fk.references_column.as_deref(), Some("id"));
    assert_eq!(fk.on_update.as_deref(), Some("CASCADE"));
    assert_eq!(fk.on_delete.as_deref(), Some("SET NULL"));
    assert_eq!(role.generation_kind, GenerationKind::Normal);
    assert_eq!(role.declared_type, "INTEGER");
    assert_eq!(role.position, 2);
}

#[test]
fn no_row_is_not_found() {
    assert_eq!(describe(&None).err(), Some(SchemaError::NotFound));
}

#[test]
fn columns_stand_by_position() {
    let columns = vec![column(2, "c", "TEXT"), column(0, "a", "TEXT"), column(1, "b", "TEXT")];
    let t = describe(&users(columns, Vec::new())).unwrap();
    let names: Vec<&str> = t.columns.iter().map(|c| c.name.as_str()).collect();
    assert_eq!(names, vec!["a", "b", "c"]);
}

#[test]
fn a_column_joined_twice_keeps_its_first_foreign_key() {
    let mut first = column(1, "owner", "INTEGER");
    first.is_foreign_key = 1;
    first.reference_table = Some("people".to_string());
    let mut second = column(1, "owner", "INTEGER");
    second.is_foreign_key = 1;
    second.reference_table = Some("teams".to_string());
    let t = describe(&users(vec![column(0, "id", "INTEGER"), first, second], Vec::new())).unwrap();
    assert_eq!(t.columns.len(), 2);
    assert_eq!(t.columns[1].foreign_key.as_ref().unwrap().references_table, "people");
}

#[test]
fn two_names_at_one_position_are_a_catalog_error() {
    let columns = vec![column(0, "a", "TEXT"), column(0, "b", "TEXT")];
    assert_eq!(describe(&users(columns, Vec::new())).err(), Some(SchemaError::CatalogError));
}

#[test]
fn unsound_columns_are_a_catalog_error() {
    let mut no_position = column(0, "a", "TEXT");
    no_position.column_id = None;
    assert_eq!(describe(&users(vec![no_position], Vec::new())).err(), Some(SchemaError::CatalogError));
    let mut odd_generation = column(0, "a", "TEXT");
    odd_generation.generated_column_type = Some(9);
    assert_eq!(describe(&users(vec![odd_generation], Vec::new())).err(), Some(SchemaError::CatalogError));
    let mut key_without_order = column(0, "a", "TEXT");
    key_without_order.is_primary_key = 1;
    key_without_order.primary_key_order = None;
    assert_eq!(describe(&users(vec![key_without_order], Vec::new())).err(), Some(SchemaError::CatalogError));
    let mut edge_without_table = column(0, "a", "TEXT");
    edge_without_table.is_foreign_key = 1;
    assert_eq!(describe(&users(vec![edge_without_table], Vec::new())).err(), Some(SchemaError::CatalogError));
}

#[test]
fn missing_schema_is_a_catalog_error() {
    let mut row = users(users_columns(), Vec::new());
    row.as_mut().unwrap().table_details.schema = None;
    assert_eq!(describe(&row).err(), Some(SchemaError::CatalogError));
}

#[test]
fn generation_kinds() {
    let mut v = column(0, "v", "TEXT");
    v.generated_column_type = Some(2);
    let mut s = column(1, "s", "TEXT");
    s.generated_column_type = Some(3);
    let mut n = column(2, "n", "TEXT");
    n.generated_column_type = None;
    let mut h = column(3, "h", "TEXT");
    h.generated_column_type = Some(1);
    let t = describe(&users(vec![v, s, n, h], Vec::new())).unwrap();
    assert_eq!(t.columns[0].generation_kind, GenerationKind::Virtual);
    assert_eq!(t.columns[1].generation_kind, GenerationKind::Stored);
    assert_eq!(t.columns[2].generation_kind, GenerationKind::Normal);
    assert_eq!(t.columns[3].generation_kind, GenerationKind::Normal);
}

#[test]
fn foreign_key_fields_are_dropped_without_a_foreign_key() {
    let mut c = column(0, "a", "TEXT");
    c.reference_table = Some("stale".to_string());
    c.reference_column = Some("stale".to_string());
    let t = describe(&users(vec![c], Vec::new())).unwrap();
    assert!(t.columns[0].foreign_key.is_none());
}

#[test]
fn index_names_are_distinct_and_not_empty() {
    let mut c = column(0, "a", "TEXT");
    c.part_of_index = Some("i1,,i2,i1,".to_string());
    let t = describe(&users(vec![c], Vec::new())).unwrap();
    assert_eq!(t.columns[0].index_membership, vec!["i1".to_string(), "i2".to_string()]);
    let mut d = column(0, "a", "TEXT");
    d.part_of_index = Some(String::new());
    let t = describe(&users(vec![d], Vec::new())).unwrap();
    assert!(t.columns[0].index_membership.is_empty());
}

#[test]
fn split_text_keeps_empty_pieces() {
    assert_eq!(split_text("", ','), vec![String::new()]);
    assert_eq!(split_text("a", ','), vec!["a".to_string()]);
    assert_eq!(split_text("a,b", ','), vec!["a".to_string(), "b".to_string()]);
    assert_eq!(split_text(",a,", ','), vec![String::new(), "a".to_string(), String::new()]);
    assert_eq!(split_text("x.y.z", '.'), vec!["x".to_string(), "y".to_string(), "z".to_string()]);
}

#[test]
fn enabled_policies_are_kept_in_order() {
    let mut off = policy(2, "off", "select", "PERMISSIVE", Some("x"), None);
    off.is_enabled = 0;
    let policies = vec![
        policy(1, "active_users_select", "select", "PERMISSIVE", Some("is_active = 1"), None),
        off,
        policy(3, "tenant", "all", "RESTRICTIVE", Some("tenant = 1"), Some("tenant = 1")),
    ];
    let t = describe(&users(users_columns(), policies)).unwrap();
    assert_eq!(t.policies.len(), 2);
    assert_eq!(t.policies[0].id, 1);
    assert_eq!(t.policies[0].name, "active_users_select");
    assert_eq!(t.policies[0].table_name, "users");
    assert_eq!(t.policies[0].operation, PolicyScope::Select);
    assert_eq!(t.policies[0].kind, PolicyKind::Permissive);
    assert_eq!(t.policies[0].using_expr.as_deref(), Some("is_active = 1"));
    assert!(t.policies[0].is_enabled);
    assert_eq!(t.policies[1].operation, PolicyScope::All);
    assert_eq!(t.policies[1].kind, PolicyKind::Restrictive);
}

#[test]
fn unsound_policies_are_a_catalog_error() {
    let cases = vec![
        policy(1, "p", "truncate", "PERMISSIVE", Some("x"), None),
        policy(1, "p", "select", "permissive", Some("x"), None),
        policy(1, "p", "select", "PERMISSIVE", None, None),
        Policy { name: None, ..policy(1, "p", "select", "PERMISSIVE", Some("x"), None) },
        Policy { operation: None, ..policy(1, "p", "select", "PERMISSIVE", Some("x"), None) },
        Policy { policy_type: None, ..policy(1, "p", "select", "PERMISSIVE", Some("x"), None) },
    ];
    for p in cases {
        assert_eq!(describe(&users(users_columns(), vec![p])).err(), Some(SchemaError::CatalogError));
    }
}

#[test]
fn unsound_disabled_policy_is_passed_over() {
    let mut p = policy(1, "p", "truncate", "PERMISSIVE", None, None);
    p.is_enabled = 0;
    let t = describe(&users(users_columns(), vec![p])).unwrap();
    assert!(t.policies.is_empty());
}

#[test]
fn every_operation_and_kind_is_read() {
    for (text, scope) in [
        ("select", PolicyScope::Select),
        ("update", PolicyScope::Update),
        ("insert", PolicyScope::Insert),
        ("delete", PolicyScope::Delete),
        ("all", PolicyScope::All),
    ] {
        let p = policy(1, "p", text, "RESTRICTIVE", None, Some("c"));
        let t = describe(&users(users_columns(), vec![p])).unwrap();
        assert_eq!(t.policies[0].operation, scope);
        assert_eq!(t.policies[0].kind, PolicyKind::Restrictive);
        assert_eq!(t.policies[0].check_expr.as_deref(), Some("c"));
    }
}
