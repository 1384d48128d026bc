use palmera::policy::{merge_policies, Clause, Gate, Operation, PolicyKind, PolicyScope};
use palmera::query::{build, TableSchema};
use palmera::schema::{
    describe, ColumnDetails, GenerationKind, Policy, SchemaError, TableDetails, TableOutput,
};
use serde_json::Value;
use sqlx::Row;

const TABLE_INFO_SQL: &str = r#"
    SELECT
      json_object(
            'name', m.name,
            'type', m.type,
            'schema', 'main',
            'sql', m.sql,
            'policies', (
                SELECT json_group_array(
                    json_object(
                        'id', p.id,
                        'name', p.name,
                        'description', p.description,
                        'is_enabled', p.is_enabled,
                        'operation', p.operation,
                        'policy_type', p.policy_type,
                        'using_expr', p.using_expr,
                        'check_expr', p.check_expr
                    )
                )
                FROM _policies p
                WHERE p.table_name = m.name AND p.is_enabled = 1
            ),
            'columns', (
                SELECT json_group_array(
                    json_object(
                        'column_id', txi.cid,
                        'column_name', txi.name,
                        'data_type', txi.type,
                        'is_not_null', txi."notnull",
                        'default_value', txi.dflt_value,
                        'is_primary_key', CASE WHEN txi.pk > 0 THEN 1 ELSE 0 END,
                        'primary_key_order', txi.pk,
                        'generated_column_type', txi.hidden,
                        'is_foreign_key', CASE WHEN fkl."from" IS NOT NULL THEN 1 ELSE 0 END,
                        'reference_table', fkl."table",
                        'reference_column', fkl."to",
                        'foreign_key_on_update', fkl.on_update,
                        'foreign_key_on_delete', fkl.on_delete,
                        'part_of_index', (
                            SELECT group_concat(il.name)
                            FROM pragma_index_list(m.name) AS il
                            JOIN pragma_index_info(il.name) AS ii ON ii.name = txi.name
                        )
                    )
                )
                FROM pragma_table_xinfo(m.name) AS txi
                LEFT JOIN pragma_foreign_key_list(m.name) AS fkl ON fkl."from" = txi.name
            )
        ) AS table_details
    FROM
        sqlite_master AS m
    WHERE
        m.type = 'table' AND m.name = ?;
    "#;

const SETUP: [&str; 8] = [
    "CREATE TABLE IF NOT EXISTS _policies (
        id integer NOT NULL PRIMARY KEY AUTOINCREMENT,
        name varchar NOT NULL UNIQUE,
        description varchar NULL,
        is_enabled integer NOT NULL DEFAULT 1,
        table_name varchar NOT NULL,
        operation varchar NOT NULL CHECK (operation IN ('select', 'update', 'insert', 'delete', 'all')),
        policy_type varchar NOT NULL DEFAULT 'PERMISSIVE' CHECK (policy_type IN ('PERMISSIVE', 'RESTRICTIVE')),
        using_expr varchar NULL,
        check_expr varchar NULL,
        CHECK (using_expr IS NOT NULL OR check_expr IS NOT NULL)
    )",
    "CREATE TABLE roles (id INTEGER PRIMARY KEY AUTOINCREMENT, name TEXT NOT NULL UNIQUE)",
    "CREATE TABLE users (
        id INTEGER PRIMARY KEY AUTOINCREMENT,
        email TEXT NOT NULL UNIQUE,
        is_active INTEGER NOT NULL DEFAULT 1,
        role_id INTEGER,
        FOREIGN KEY (role_id) REFERENCES roles(id) ON DELETE SET NULL ON UPDATE CASCADE
    )",
    "CREATE INDEX idx_users_email ON users(email)",
    "CREATE TABLE prices (
        net INTEGER NOT NULL,
        tax INTEGER GENERATED ALWAYS AS (net / 5) VIRTUAL,
        gross INTEGER GENERATED ALWAYS AS (net + net / 5) STORED
    )",
    "INSERT INTO _policies (name, description, is_enabled, table_name, operation, policy_type, using_expr)
        VALUES ('active_users_select', 'Only allow access to active users', 1, 'users', 'select', 'PERMISSIVE', 'is_active = 1')",
    "INSERT INTO _policies (name, is_enabled, table_name, operation, policy_type, check_expr)
        VALUES ('active_users_insert', 1, 'users', 'insert', 'PERMISSIVE', 'is_active = 1')",
    "INSERT INTO _policies (name, is_enabled, table_name, operation, policy_type, using_expr)
        VALUES ('retired', 0, 'users', 'select', 'PERMISSIVE', '1 = 1')",
];

fn text(v: &Value, key: &str) -> Option<String> {
    v.get(key).and_then(|x| x.as_str()).map(|s| s.to_string())
}

fn integer(v: &Value, key: &str) -> Option<i64> {
    v.get(key).and_then(|x| x.as_i64())
}

fn flag(v: &Value, key: &str) -> i16 {
    integer(v, key).unwrap_or(0) as i16
}

fn details(document: &Value) -> TableDetails {
    let policies = match document.get("policies").and_then(|p| p.as_array()) {
        Some(items) => items
            .iter()
            .map(|p| Policy {
                id: integer(p, "id").unwrap(),
                name: text(p, "name"),
                description: text(p, "description"),
                is_enabled: flag(p, "is_enabled"),
                operation: text(p, "operation"),
                policy_type: text(p, "policy_type"),
                using_expr: text(p, "using_expr"),
                check_expr: text(p, "check_expr"),
            })
            .collect(),
        None => Vec::new(),
    };
    let columns = match document.get("columns").and_then(|c| c.as_array()) {
        Some(items) => items
            .iter()
            .map(|c| ColumnDetails {
                column_id: integer(c, "column_id"),
                column_name: text(c, "column_name").unwrap(),
                data_type: text(c, "data_type").unwrap(),
                is_not_null: flag(c, "is_not_null"),
                default_value: text(c, "default_value"),
                is_primary_key: flag(c, "is_primary_key"),
                primary_key_order: integer(c, "primary_key_order"),
                generated_column_type: integer(c, "generated_column_type"),
                is_foreign_key: flag(c, "is_foreign_key"),
                reference_table: text(c, "reference_table"),
                reference_column: text(c, "reference_column"),
                foreign_key_on_update: text(c, "foreign_key_on_update"),
                foreign_key_on_delete: text(c, "foreign_key_on_delete"),
                part_of_index: text(c, "part_of_index"),
            })
            .collect(),
        None => Vec::new(),
    };
    TableDetails {
        name: text(document, "name").unwrap(),
        kind: text(document, "type"),
        schema: text(document, "schema"),
        sql: text(document, "sql"),
        policies,
        columns,
    }
}

async fn table_info(pool: &sqlx::SqlitePool, name: &str) -> Option<TableOutput> {
    let row = sqlx::query(TABLE_INFO_SQL).bind(name).fetch_optional(pool).await.unwrap();
    row.map(|row| {
        let raw: String = row.get("table_details");
        let document: Value = serde_json::from_str(&raw).unwrap();
        TableOutput { table_details: details(&document) }
    })
}

fn on_a_catalog<T>(ask: &str, then: impl FnOnce(Option<TableOutput>) -> T) -> T {
    let runtime = tokio::runtime::Builder::new_current_thread().enable_all().build().unwrap();
    let found = runtime.block_on(async {
        let pool = sqlx::sqlite::SqlitePoolOptions::new()
            .max_connections(1)
            .connect("sqlite::memory:")
            .await
            .unwrap();
        for statement in SETUP {
            sqlx::query(statement).execute(&pool).await.unwrap();
        }
        table_info(&pool, ask).await
    });
    then(found)
}

#[test]
fn describes_users_from_the_catalog() {
    on_a_catalog("users", |found| {
        let t = describe(&found).unwrap();
        assert_eq!(t.name, "users");
        assert_eq!(t.schema, "main");
        assert!(t.origin_sql.as_deref().unwrap().starts_with("CREATE TABLE users"));
        let names: Vec<&str> = t.columns.iter().map(|c| c.name.as_str()).collect();
        assert_eq!(names, vec!["id", "email", "is_active", "role_id"]);
        let positions: Vec<i64> = t.columns.iter().map(|c| c.position).collect();
        assert_eq!(positions, vec![0, 1, 2, 3]);

        let id = &t.columns[0];
        assert!(id.is_primary_key);
        assert_eq!(id.primary_key_order, Some(1));
        assert_eq!(id.declared_type, "INTEGER");
        assert!(id.foreign_key.is_none());

        let email = &t.columns[1];
        assert!(email.is_not_null);
        assert!(!email.is_primary_key);
        assert_eq!(email.primary_key_order, None);
        assert!(email.index_membership.contains(&"idx_users_email".to_string()));
        assert_eq!(email.index_membership.len(), 2);

        let active = &t.columns[2];
        assert_eq!(active.default_value.as_deref(), Some("1"));
        assert!(active.index_membership.is_empty());

        let role = &t.columns[3];
        let fk = role.foreign_key.as_ref().unwrap();
        assert_eq!(fk.references_table, "roles");
        assert_eq!(fk.references_column.as_deref(), Some("id"));
        assert_eq!(fk.on_update.as_deref(), Some("CASCADE"));
        assert_eq!(fk.on_delete.as_deref(), Some("SET NULL"));
        assert!(!role.is_primary_key);

        assert_eq!(t.policies.len(), 2);
        assert_eq!(t.policies[0].name, "active_users_select");
        assert_eq!(t.policies[0].operation, PolicyScope::Select);
        assert_eq!(t.policies[0].kind, PolicyKind::Permissive);
        assert_eq!(t.policies[0].description.as_deref(), Some("Only allow access to active users"));
        assert_eq!(t.policies[1].name, "active_users_insert");
        assert_eq!(t.policies[1].check_expr.as_deref(), Some("is_active = 1"));

        let gate = merge_policies(&t.policies, "users", Operation::Select, Clause::Using);
        assert!(matches!(gate, Gate::Where(e) if e == "is_active = 1"));
        let table = TableSchema::new(t.schema.clone(), t.name.clone()).unwrap();
        let select = build(&table, Operation::Select, &Vec::new(), &t.policies).unwrap();
        assert_eq!(select.sql, "SELECT * FROM \"main\".\"users\" WHERE is_active = 1");
        let delete = build(&table, Operation::Delete, &Vec::new(), &t.policies).unwrap();
        assert_eq!(delete.sql, "DELETE FROM \"main\".\"users\" WHERE FALSE");
    });
}

#[test]
fn describes_a_table_without_policies() {
    on_a_catalog("roles", |found| {
        let t = describe(&found).unwrap();
        assert_eq!(t.columns.len(), 2);
        assert!(t.policies.is_empty());
        assert!(t.columns[0].is_primary_key);
        assert!(t.columns[1].is_not_null);
        let table = TableSchema::new(t.schema.clone(), t.name.clone()).unwrap();
        let select = build(&table, Operation::Select, &Vec::new(), &t.policies).unwrap();
        assert_eq!(select.sql, "SELECT * FROM \"main\".\"roles\"");
    });
}

#[test]
fn unknown_table_is_not_found() {
    on_a_catalog("nowhere", |found| {
        assert!(found.is_none());
        assert_eq!(describe(&found).err(), Some(SchemaError::NotFound));
    });
}

#[test]
fn generated_columns_are_told_apart() {
    on_a_catalog("prices", |found| {
        let t = describe(&found).unwrap();
        let kinds: Vec<(&str, GenerationKind)> =
            t.columns.iter().map(|c| (c.name.as_str(), c.generation_kind)).collect();
        assert_eq!(
            kinds,
            vec![
                ("net", GenerationKind::Normal),
                ("tax", GenerationKind::Virtual),
                ("gross", GenerationKind::Stored),
            ]
        );
    });
}
