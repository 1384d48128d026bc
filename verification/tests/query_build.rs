use palmera::policy::{AccessPolicy, Operation, PolicyKind, PolicyScope};
use palmera::query::{build, guard_probe, BuildError, TableSchema};
use palmera::value::{JsonMember, JsonNumber, JsonValue, TypedParam};

fn users() -> TableSchema {
    TableSchema::new("public".to_string(), "users".to_string()).unwrap()
}

fn field(name: &str, value: JsonValue) -> JsonMember {
    JsonMember { name: name.to_string(), value }
}

fn select_policy(expr: &str, kind: PolicyKind) -> AccessPolicy {
    AccessPolicy {
        id: 1,
        name: "p".to_string(),
        description: None,
        is_enabled: true,
        table_name: "users".to_string(),
        operation: PolicyScope::All,
        kind,
        using_expr: Some(expr.to_string()),
        check_expr: None,
    }
}

#[test]
fn table_names_must_be_identifiers() {
    assert!(TableSchema::new("public".to_string(), "users".to_string()).is_some());
    assert!(TableSchema::new("public".to_string(), "users; drop".to_string()).is_none());
    assert!(TableSchema::new("pub lic".to_string(), "users".to_string()).is_none());
    assert!(TableSchema::new("".to_string(), "users".to_string()).is_none());
    let t = users();
    assert_eq!(t.schema(), "public");
    assert_eq!(t.table(), "users");
}

#[test]
fn insert_without_policies() {
    let fields = vec![
        field("name", JsonValue::String("ada".to_string())),
        field("age", JsonValue::Number(JsonNumber::Integer(36))),
    ];
    let stmt = build(&users(), Operation::Insert, &fields, &Vec::new()).unwrap();
    assert_eq!(
        stmt.sql,
        "INSERT INTO \"public\".\"users\" (\"name\", \"age\") VALUES ($1, $2) RETURNING row_to_json(users.*) as data"
    );
    assert_eq!(stmt.params.len(), 2);
    assert!(matches!(&stmt.params[0], TypedParam::String(s) if s == "ada"));
    assert!(matches!(&stmt.params[1], TypedParam::BigInt(36)));
    assert_eq!(stmt.check, None);
}

#[test]
fn select_without_policies_has_no_predicate() {
    let stmt = build(&users(), Operation::Select, &Vec::new(), &Vec::new()).unwrap();
    assert_eq!(stmt.sql, "SELECT * FROM \"public\".\"users\"");
    assert!(stmt.params.is_empty());
    assert_eq!(stmt.check, None);
}

#[test]
fn select_with_policy_has_where() {
    let policies = vec![select_policy("is_active = 1", PolicyKind::Permissive)];
    let stmt = build(&users(), Operation::Select, &Vec::new(), &policies).unwrap();
    assert_eq!(stmt.sql, "SELECT * FROM \"public\".\"users\" WHERE is_active = 1");
}

#[test]
fn select_default_deny() {
    let policies = vec![select_policy("tenant = 1", PolicyKind::Restrictive)];
    let stmt = build(&users(), Operation::Select, &Vec::new(), &policies).unwrap();
    assert_eq!(stmt.sql, "SELECT * FROM \"public\".\"users\" WHERE FALSE");
}

#[test]
fn update_with_policy() {
    let mut p = select_policy("owner = 1", PolicyKind::Permissive);
    p.check_expr = Some("age >= 0".to_string());
    let fields = vec![field("age", JsonValue::Number(JsonNumber::Integer(37)))];
    let stmt = build(&users(), Operation::Update, &fields, &vec![p]).unwrap();
    assert_eq!(stmt.sql, "UPDATE \"public\".\"users\" SET \"age\" = $1 WHERE owner = 1 RETURNING row_to_json(users.*) as data");
    assert_eq!(stmt.check, Some("age >= 0".to_string()));
    assert_eq!(stmt.params.len(), 1);
}

#[test]
fn delete_with_policy() {
    let policies = vec![select_policy("owner = 1", PolicyKind::Permissive)];
    let stmt = build(&users(), Operation::Delete, &Vec::new(), &policies).unwrap();
    assert_eq!(stmt.sql, "DELETE FROM \"public\".\"users\" WHERE owner = 1");
    assert_eq!(stmt.check, None);
}

#[test]
fn insert_guard_is_the_merged_check() {
    let mut p = select_policy("owner = 1", PolicyKind::Permissive);
    p.check_expr = Some("is_active = 1".to_string());
    let fields = vec![field("is_active", JsonValue::Bool(true))];
    let stmt = build(&users(), Operation::Insert, &fields, &vec![p]).unwrap();
    assert_eq!(stmt.check, Some("is_active = 1".to_string()));
    assert_eq!(
        stmt.sql,
        "INSERT INTO \"public\".\"users\" (\"is_active\") VALUES ($1) RETURNING row_to_json(users.*) as data"
    );
}

#[test]
fn insert_closed_where_no_permissive_policy() {
    let mut p = select_policy("owner = 1", PolicyKind::Permissive);
    p.operation = PolicyScope::Select;
    let fields = vec![field("a", JsonValue::Null)];
    let stmt = build(&users(), Operation::Insert, &fields, &vec![p]).unwrap();
    assert_eq!(stmt.check, Some("FALSE".to_string()));
}

#[test]
fn unsafe_column_names_are_refused() {
    for bad in ["na'me", "na\"me", "a;b", "a b", "a\tb", "a\nb", "", "1abc", "a-b", "naïve"] {
        for op in [Operation::Insert, Operation::Update, Operation::Select, Operation::Delete] {
            let fields = vec![field("ok", JsonValue::Null), field(bad, JsonValue::Null)];
            let r = build(&users(), op, &fields, &Vec::new());
            assert_eq!(r.err(), Some(BuildError::InvalidColumnSet), "{:?}", bad);
        }
    }
}

#[test]
fn identifier_names_are_accepted() {
    for good in ["a", "_", "_a1", "Name", "snake_case_9", "A_B"] {
        for op in [Operation::Insert, Operation::Update, Operation::Select, Operation::Delete] {
            let fields = vec![field(good, JsonValue::Null)];
            assert!(build(&users(), op, &fields, &Vec::new()).is_ok(), "{:?}", good);
        }
    }
}

#[test]
fn empty_write_set_is_refused() {
    let none: Vec<JsonMember> = Vec::new();
    assert_eq!(build(&users(), Operation::Insert, &none, &Vec::new()).err(), Some(BuildError::EmptyWriteSet));
    assert_eq!(build(&users(), Operation::Update, &none, &Vec::new()).err(), Some(BuildError::EmptyWriteSet));
    assert!(build(&users(), Operation::Select, &none, &Vec::new()).is_ok());
    assert!(build(&users(), Operation::Delete, &none, &Vec::new()).is_ok());
}

#[test]
fn guard_probe_reads_the_row_as_a_row_of_the_table() {
    assert_eq!(
        guard_probe(&users(), "is_active = 1"),
        "SELECT EXISTS (SELECT 1 FROM json_populate_record(NULL::\"public\".\"users\", $1) WHERE is_active = 1)"
    );
    assert_eq!(
        guard_probe(&users(), "FALSE"),
        "SELECT EXISTS (SELECT 1 FROM json_populate_record(NULL::\"public\".\"users\", $1) WHERE FALSE)"
    );
}
