//! What is asked of the catalog of an SQLite database, and the table that
//! holds the policies.
//!
//! Nothing here talks to a database. A `PragmaCall` names a table-valued
//! pragma function and its argument; a `TableDefinition` says what a table
//! is made of. Whoever holds the connection turns them into statements.

use vstd::prelude::*;
use crate::text::{opt_text, texts};

verus! {

/// A call of a table-valued pragma function.
#[derive(Debug)]
pub struct PragmaCall {
    /// The name of the function.
    pub function: String,
    /// The table or index that it is asked about, if it is asked about one.
    pub argument: Option<String>,
}

/// The model of a [`PragmaCall`].
pub struct PragmaModel {
    pub function: Seq<char>,
    pub argument: Option<Seq<char>>,
}

impl View for PragmaCall {
    type V = PragmaModel;

    open spec fn view(&self) -> PragmaModel {
        PragmaModel { function: self.function@, argument: opt_text(self.argument) }
    }
}

fn pragma_about(function: &str, argument: &str) -> (call: PragmaCall)
    ensures
        call@ == (PragmaModel { function: function@, argument: Some(argument@) }),
{
    PragmaCall { function: function.to_owned(), argument: Some(argument.to_owned()) }
}

fn pragma_list(function: &str) -> (call: PragmaCall)
    ensures
        call@ == (PragmaModel { function: function@, argument: None }),
{
    PragmaCall { function: function.to_owned(), argument: None }
}

/// The columns of a table.
pub fn table_info(table_name: &str) -> (call: PragmaCall)
    ensures
        call@ == (PragmaModel { function: "pragma_table_info"@, argument: Some(table_name@) }),
{
    pragma_about("pragma_table_info", table_name)
}

/// The tables of the database.
pub fn table_list() -> (call: PragmaCall)
    ensures
        call@ == (PragmaModel { function: "pragma_table_list"@, argument: None }),
{
    pragma_list("pragma_table_list")
}

/// The columns of a table, the hidden ones too.
pub fn table_xinfo(table_name: &str) -> (call: PragmaCall)
    ensures
        call@ == (PragmaModel { function: "pragma_table_xinfo"@, argument: Some(table_name@) }),
{
    pragma_about("pragma_table_xinfo", table_name)
}

/// The foreign keys that start at a table.
pub fn foreign_key_list(table_name: &str) -> (call: PragmaCall)
    ensures
        call@ == (PragmaModel {
            function: "pragma_foreign_key_list"@,
            argument: Some(table_name@),
        }),
{
    pragma_about("pragma_foreign_key_list", table_name)
}

/// The indexes of a table.
pub fn index_list(table_name: &str) -> (call: PragmaCall)
    ensures
        call@ == (PragmaModel { function: "pragma_index_list"@, argument: Some(table_name@) }),
{
    pragma_about("pragma_index_list", table_name)
}

/// The columns of an index.
pub fn index_info(index_name: &str) -> (call: PragmaCall)
    ensures
        call@ == (PragmaModel { function: "pragma_index_info"@, argument: Some(index_name@) }),
{
    pragma_about("pragma_index_info", index_name)
}

/// The columns of an index, the auxiliary ones too.
pub fn index_xinfo(index_name: &str) -> (call: PragmaCall)
    ensures
        call@ == (PragmaModel { function: "pragma_index_xinfo"@, argument: Some(index_name@) }),
{
    pragma_about("pragma_index_xinfo", index_name)
}

/// The databases of the connection.
pub fn database_list() -> (call: PragmaCall)
    ensures
        call@ == (PragmaModel { function: "pragma_database_list"@, argument: None }),
{
    pragma_list("pragma_database_list")
}

/// The collating sequences of the connection.
pub fn collation_list() -> (call: PragmaCall)
    ensures
        call@ == (PragmaModel { function: "pragma_collation_list"@, argument: None }),
{
    pragma_list("pragma_collation_list")
}

/// The functions of the connection.
pub fn function_list() -> (call: PragmaCall)
    ensures
        call@ == (PragmaModel { function: "pragma_function_list"@, argument: None }),
{
    pragma_list("pragma_function_list")
}

/// The virtual-table modules of the connection.
pub fn module_list() -> (call: PragmaCall)
    ensures
        call@ == (PragmaModel { function: "pragma_module_list"@, argument: None }),
{
    pragma_list("pragma_module_list")
}

/// The type of a column.
#[derive(Clone, Copy, Debug, PartialEq, Eq, Structural)]
pub enum ColumnType {
    Integer,
    Text,
}

/// The value that a column takes where none is given.
#[derive(Debug)]
pub enum DefaultValue {
    Integer(i64),
    Text(String),
}

/// The model of a [`DefaultValue`].
pub enum DefaultModel {
    Integer(i64),
    Text(Seq<char>),
}

/// One column of a table that is to be created.
#[derive(Debug)]
pub struct ColumnDefinition {
    pub name: String,
    pub column_type: ColumnType,
    pub not_null: bool,
    pub auto_increment: bool,
    pub primary_key: bool,
    pub unique: bool,
    pub default_value: Option<DefaultValue>,
    /// The condition that every value of the column meets.
    pub check: Option<String>,
}

/// The model of a [`ColumnDefinition`].
pub struct ColumnDefinitionModel {
    pub name: Seq<char>,
    pub column_type: ColumnType,
    pub not_null: bool,
    pub auto_increment: bool,
    pub primary_key: bool,
    pub unique: bool,
    pub default_value: Option<DefaultModel>,
    pub check: Option<Seq<char>>,
}

impl View for ColumnDefinition {
    type V = ColumnDefinitionModel;

    open spec fn view(&self) -> ColumnDefinitionModel {
        ColumnDefinitionModel {
            name: self.name@,
            column_type: self.column_type,
            not_null: self.not_null,
            auto_increment: self.auto_increment,
            primary_key: self.primary_key,
            unique: self.unique,
            default_value: match self.default_value {
                Some(DefaultValue::Integer(i)) => Some(DefaultModel::Integer(i)),
                Some(DefaultValue::Text(s)) => Some(DefaultModel::Text(s@)),
                None => None,
            },
            check: opt_text(self.check),
        }
    }
}

/// A table that is to be created.
#[derive(Debug)]
pub struct TableDefinition {
    pub name: String,
    pub if_not_exists: bool,
    pub columns: Vec<ColumnDefinition>,
    /// The conditions that every row of the table meets.
    pub checks: Vec<String>,
}

/// The model of a [`TableDefinition`].
pub struct TableDefinitionModel {
    pub name: Seq<char>,
    pub if_not_exists: bool,
    pub columns: Seq<ColumnDefinitionModel>,
    pub checks: Seq<Seq<char>>,
}

impl View for TableDefinition {
    type V = TableDefinitionModel;

    open spec fn view(&self) -> TableDefinitionModel {
        TableDefinitionModel {
            name: self.name@,
            if_not_exists: self.if_not_exists,
            columns: self.columns@.map_values(|c: ColumnDefinition| c@),
            checks: texts(self.checks@),
        }
    }
}

/// A column that is no key, is not unique and counts nothing.
pub open spec fn plain_column(
    name: Seq<char>,
    column_type: ColumnType,
    not_null: bool,
    default_value: Option<DefaultModel>,
    check: Option<Seq<char>>,
) -> ColumnDefinitionModel {
    ColumnDefinitionModel {
        name,
        column_type,
        not_null,
        auto_increment: false,
        primary_key: false,
        unique: false,
        default_value,
        check,
    }
}

/// The table of policies: a counted key, a unique name, a description, the
/// enable flag (on by default), the table and the operation that the policy
/// is for, its type (permissive by default), and its two expressions, of
/// which every row has at least one.
pub open spec fn policy_table() -> TableDefinitionModel {
    TableDefinitionModel {
        name: "_policies"@,
        if_not_exists: true,
        columns: seq![
            ColumnDefinitionModel {
                name: "id"@,
                column_type: ColumnType::Integer,
                not_null: true,
                auto_increment: true,
                primary_key: true,
                unique: false,
                default_value: None,
                check: None,
            },
            ColumnDefinitionModel {
                name: "name"@,
                column_type: ColumnType::Text,
                not_null: true,
                auto_increment: false,
                primary_key: false,
                unique: true,
                default_value: None,
                check: None,
            },
            plain_column("description"@, ColumnType::Text, false, None, None),
            plain_column(
                "is_enabled"@,
                ColumnType::Integer,
                true,
                Some(DefaultModel::Integer(1)),
                None,
            ),
            plain_column("table_name"@, ColumnType::Text, true, None, None),
            plain_column(
                "operation"@,
                ColumnType::Text,
                true,
                None,
                Some("operation IN ('select', 'update', 'insert', 'delete', 'all')"@),
            ),
            plain_column(
                "policy_type"@,
                ColumnType::Text,
                true,
                Some(DefaultModel::Text("PERMISSIVE"@)),
                Some("policy_type IN ('PERMISSIVE', 'RESTRICTIVE')"@),
            ),
            plain_column("using_expr"@, ColumnType::Text, false, None, None),
            plain_column("check_expr"@, ColumnType::Text, false, None, None),
        ],
        checks: seq!["using_expr IS NOT NULL OR check_expr IS NOT NULL"@],
    }
}

fn plain(
    name: &str,
    column_type: ColumnType,
    not_null: bool,
    default_value: Option<DefaultValue>,
    check: Option<&str>,
) -> (column: ColumnDefinition)
    ensures
        column@ == plain_column(
            name@,
            column_type,
            not_null,
            match default_value {
                Some(DefaultValue::Integer(i)) => Some(DefaultModel::Integer(i)),
                Some(DefaultValue::Text(s)) => Some(DefaultModel::Text(s@)),
                None => None,
            },
            match check {
                Some(c) => Some(c@),
                None => None,
            },
        ),
{
    ColumnDefinition {
        name: name.to_owned(),
        column_type,
        not_null,
        auto_increment: false,
        primary_key: false,
        unique: false,
        default_value,
        check: match check {
            Some(c) => Some(c.to_owned()),
            None => None,
        },
    }
}

/// The definition of the table of policies.
pub fn create_policy_table() -> (table: TableDefinition)
    ensures
        table@ == policy_table(),
{
    let mut columns: Vec<ColumnDefinition> = Vec::new();
    columns.push(
        ColumnDefinition {
            name: "id".to_owned(),
            column_type: ColumnType::Integer,
            not_null: true,
            auto_increment: true,
            primary_key: true,
            unique: false,
            default_value: None,
            check: None,
        },
    );
    columns.push(
        ColumnDefinition {
            name: "name".to_owned(),
            column_type: ColumnType::Text,
            not_null: true,
            auto_increment: false,
            primary_key: false,
            unique: true,
            default_value: None,
            check: None,
        },
    );
    columns.push(plain("description", ColumnType::Text, false, None, None));
    columns.push(
        plain("is_enabled", ColumnType::Integer, true, Some(DefaultValue::Integer(1)), None),
    );
    columns.push(plain("table_name", ColumnType::Text, true, None, None));
    columns.push(
        plain(
            "operation",
            ColumnType::Text,
            true,
            None,
            Some("operation IN ('select', 'update', 'insert', 'delete', 'all')"),
        ),
    );
    columns.push(
        plain(
            "policy_type",
            ColumnType::Text,
            true,
            Some(DefaultValue::Text("PERMISSIVE".to_owned())),
            Some("policy_type IN ('PERMISSIVE', 'RESTRICTIVE')"),
        ),
    );
    columns.push(plain("using_expr", ColumnType::Text, false, None, None));
    columns.push(plain("check_expr", ColumnType::Text, false, None, None));
    let mut checks: Vec<String> = Vec::new();
    checks.push("using_expr IS NOT NULL OR check_expr IS NOT NULL".to_owned());
    let table = TableDefinition { name: "_policies".to_owned(), if_not_exists: true, columns, checks };
    assert(table@.columns =~= policy_table().columns);
    assert(table@.checks =~= policy_table().checks);
    table
}

} // verus!
