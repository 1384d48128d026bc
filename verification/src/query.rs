//! Parameterized statements for one table, gated by its policies.
//!
//! Values never reach the statement text: each is bound as a numbered
//! parameter. Table and column names do reach it, and only after they have
//! passed the identifier check. The text itself is rendered by `sea_query`
//! for PostgreSQL.

use vstd::prelude::*;
use sea_query::{Alias, Asterisk, Expr, ExprTrait, PostgresQueryBuilder, Query, Value};
use crate::ident::{check_identifier, is_identifier};
use crate::policy::{
    any_in_force, merge_policies, merged, models, AccessPolicy, Clause, Gate, GateModel, Operation,
    PolicyModel,
};
use crate::text::{opt_text, texts};
use crate::value::{json_to_sea, param_models, param_of, JsonMember, JsonModel, JsonValue, ParamModel, TypedParam};

verus! {

/// A table and the schema it lives in. Both names are identifiers.
#[derive(Debug)]
pub struct TableSchema {
    schema: String,
    table: String,
}

impl TableSchema {
    #[verifier::type_invariant]
    spec fn names_are_identifiers(self) -> bool {
        is_identifier(self.schema@) && is_identifier(self.table@)
    }

    /// The characters of the schema's name.
    pub closed spec fn schema_text(&self) -> Seq<char> {
        self.schema@
    }

    /// The characters of the table's name.
    pub closed spec fn table_text(&self) -> Seq<char> {
        self.table@
    }

    /// Names a table, if both names have the identifier shape.
    pub fn new(schema: String, table: String) -> (r: Option<TableSchema>)
        ensures
            r is Some <==> is_identifier(schema@) && is_identifier(table@),
            r matches Some(t) ==> t.schema_text() == schema@ && t.table_text() == table@,
    {
        if check_identifier(schema.as_str()) && check_identifier(table.as_str()) {
            Some(TableSchema { schema, table })
        } else {
            None
        }
    }

    /// The schema's name.
    pub fn schema(&self) -> (s: &str)
        ensures
            s@ == self.schema_text(),
            is_identifier(s@),
    {
        proof {
            use_type_invariant(self);
        }
        self.schema.as_str()
    }

    /// The table's name.
    pub fn table(&self) -> (s: &str)
        ensures
            s@ == self.table_text(),
            is_identifier(s@),
    {
        proof {
            use_type_invariant(self);
        }
        self.table.as_str()
    }
}

/// Why no statement was built.
#[derive(Clone, Copy, Debug, PartialEq, Eq, Structural)]
pub enum BuildError {
    /// A column name does not have the identifier shape.
    InvalidColumnSet,
    /// An insert or an update names no column.
    EmptyWriteSet,
}

/// A statement with numbered placeholders, the values bound to them in
/// order, and the guard that a written row must satisfy.
///
/// The executor runs a statement with a guard inside a transaction, evaluates
/// the guard against each row that the statement proposes, and rolls back
/// where it does not hold.
#[derive(Debug)]
pub struct ParameterizedStatement {
    pub sql: String,
    pub params: Vec<TypedParam>,
    pub check: Option<String>,
}

/// The model of a [`ParameterizedStatement`].
pub struct StatementModel {
    pub sql: Seq<char>,
    pub params: Seq<ParamModel>,
    pub check: Option<Seq<char>>,
}

impl View for ParameterizedStatement {
    type V = StatementModel;

    open spec fn view(&self) -> StatementModel {
        StatementModel {
            sql: self.sql@,
            params: param_models(self.params@),
            check: opt_text(self.check),
        }
    }
}

/// The text that `sea_query` renders for PostgreSQL for an insert of one row
/// into `schema.table`, with a numbered placeholder for each column and
/// `returning` as the expression after RETURNING.
pub uninterp spec fn insert_sql_text(
    schema: Seq<char>,
    table: Seq<char>,
    columns: Seq<Seq<char>>,
    returning: Seq<char>,
) -> Seq<char>;

/// The text that `sea_query` renders for PostgreSQL for an update of
/// `schema.table` that sets each column to a numbered placeholder, restricted
/// by `predicate` where there is one, with `returning` as the expression
/// after RETURNING.
pub uninterp spec fn update_sql_text(
    schema: Seq<char>,
    table: Seq<char>,
    columns: Seq<Seq<char>>,
    predicate: Option<Seq<char>>,
    returning: Seq<char>,
) -> Seq<char>;

/// The text that `sea_query` renders for PostgreSQL for a selection of all
/// columns of `schema.table`, restricted by `predicate` where there is one.
pub uninterp spec fn select_sql_text(
    schema: Seq<char>,
    table: Seq<char>,
    predicate: Option<Seq<char>>,
) -> Seq<char>;

/// The text that `sea_query` renders for PostgreSQL for a deletion from
/// `schema.table`, restricted by `predicate` where there is one.
pub uninterp spec fn delete_sql_text(
    schema: Seq<char>,
    table: Seq<char>,
    predicate: Option<Seq<char>>,
) -> Seq<char>;

/// The text that `sea_query` renders for PostgreSQL for a selection of all
/// columns of the rows of `schema.table` whose `column` equals a numbered
/// placeholder.
pub uninterp spec fn select_by_sql_text(schema: Seq<char>, table: Seq<char>, column: Seq<char>)
    -> Seq<char>;

/// Calls `sea_query::InsertStatement::build` with `PostgresQueryBuilder` on an
/// insert into `schema.table` of one row of NULL values under `columns`,
/// returning the custom expression `returning`. The contract gives the
/// rendered text its name; the values that `build` collects are dropped.
#[verifier::external_body]
pub(crate) fn render_insert(schema: &str, table: &str, columns: &Vec<String>, returning: &str) -> (sql: String)
    ensures
        sql@ == insert_sql_text(schema@, table@, texts(columns@), returning@),
{
    let mut query = Query::insert();
    query.into_table((Alias::new(schema), Alias::new(table)));
    query.columns(columns.iter().map(|c| Alias::new(c.as_str())));
    query.values_panic(columns.iter().map(|_| Expr::Value(Value::Bool(None))));
    query.returning(Query::returning().expr(Expr::cust(returning.to_owned())));
    query.build(PostgresQueryBuilder).0
}

/// Calls `sea_query::UpdateStatement::build` with `PostgresQueryBuilder` on an
/// update of `schema.table` that sets each of `columns` to a NULL value, with
/// `predicate` as a custom WHERE expression where there is one, returning the
/// custom expression `returning`. The contract gives the rendered text its
/// name; the values that `build` collects are dropped.
#[verifier::external_body]
fn render_update(
    schema: &str,
    table: &str,
    columns: &Vec<String>,
    predicate: &Option<String>,
    returning: &str,
) -> (sql: String)
    ensures
        sql@ == update_sql_text(
            schema@,
            table@,
            texts(columns@),
            opt_text(*predicate),
            returning@,
        ),
{
    let mut query = Query::update();
    query.table((Alias::new(schema), Alias::new(table)));
    query.values(columns.iter().map(|c| (Alias::new(c.as_str()), Expr::Value(Value::Bool(None)))));
    query.and_where_option(predicate.clone().map(Expr::cust));
    query.returning(Query::returning().expr(Expr::cust(returning.to_owned())));
    query.build(PostgresQueryBuilder).0
}

/// Calls `sea_query::SelectStatement::build` with `PostgresQueryBuilder` on a
/// selection of `*` from `schema.table`, with `predicate` as a custom WHERE
/// expression where there is one. The contract gives the rendered text its
/// name.
#[verifier::external_body]
fn render_select(schema: &str, table: &str, predicate: &Option<String>) -> (sql: String)
    ensures
        sql@ == select_sql_text(schema@, table@, opt_text(*predicate)),
{
    let mut query = Query::select();
    query.column(Asterisk).from((Alias::new(schema), Alias::new(table)));
    query.and_where_option(predicate.clone().map(Expr::cust));
    query.build(PostgresQueryBuilder).0
}

/// Calls `sea_query::SelectStatement::build` with `PostgresQueryBuilder` on a
/// selection of `*` from `schema.table` where `column` equals a NULL value.
/// The contract gives the rendered text its name; the value that `build`
/// collects is dropped.
#[verifier::external_body]
pub(crate) fn render_select_by(schema: &str, table: &str, column: &str) -> (sql: String)
    ensures
        sql@ == select_by_sql_text(schema@, table@, column@),
{
    let mut query = Query::select();
    query.column(Asterisk).from((Alias::new(schema), Alias::new(table)));
    query.and_where(Expr::col(Alias::new(column)).eq(Expr::Value(Value::Bool(None))));
    query.build(PostgresQueryBuilder).0
}

/// Calls `sea_query::DeleteStatement::build` with `PostgresQueryBuilder` on a
/// deletion from `schema.table`, with `predicate` as a custom WHERE expression
/// where there is one. The contract gives the rendered text its name.
#[verifier::external_body]
fn render_delete(schema: &str, table: &str, predicate: &Option<String>) -> (sql: String)
    ensures
        sql@ == delete_sql_text(schema@, table@, opt_text(*predicate)),
{
    let mut query = Query::delete();
    query.from_table((Alias::new(schema), Alias::new(table)));
    query.and_where_option(predicate.clone().map(Expr::cust));
    query.build(PostgresQueryBuilder).0
}

/// The names of a list of fields, in order.
pub open spec fn field_names(fields: Seq<JsonMember>) -> Seq<Seq<char>> {
    fields.map_values(|f: JsonMember| f.name@)
}

/// The values of a list of fields, in order.
pub open spec fn field_values(fields: Seq<JsonMember>) -> Seq<JsonModel> {
    fields.map_values(|f: JsonMember| f.value@)
}

/// Every name has the identifier shape.
pub open spec fn all_identifiers(names: Seq<Seq<char>>) -> bool {
    forall|i: int| 0 <= i < names.len() ==> is_identifier(#[trigger] names[i])
}

/// Inserts and updates write; selections and deletions do not.
pub open spec fn writes(op: Operation) -> bool {
    op == Operation::Insert || op == Operation::Update
}

/// The expression that a gate puts into a statement: none where it is open,
/// the constant FALSE where it is closed.
pub open spec fn gate_text(gate: GateModel) -> Option<Seq<char>> {
    match gate {
        GateModel::Open => None,
        GateModel::Closed => Some("FALSE"@),
        GateModel::Where(e) => Some(e),
    }
}

/// The expression that projects a written row as one JSON document.
pub open spec fn row_as_json(table: Seq<char>) -> Seq<char> {
    "row_to_json("@ + table + ".*) as data"@
}

/// The text of the statement for an operation.
pub open spec fn statement_text(
    schema: Seq<char>,
    table: Seq<char>,
    op: Operation,
    names: Seq<Seq<char>>,
    using: Option<Seq<char>>,
) -> Seq<char> {
    match op {
        Operation::Insert => insert_sql_text(schema, table, names, row_as_json(table)),
        Operation::Update => update_sql_text(schema, table, names, using, row_as_json(table)),
        Operation::Select => select_sql_text(schema, table, using),
        Operation::Delete => delete_sql_text(schema, table, using),
    }
}

/// The predicate that restricts the rows a statement sees. An insert sees
/// none.
pub open spec fn using_text(ps: Seq<PolicyModel>, table: Seq<char>, op: Operation) -> Option<
    Seq<char>,
> {
    if op == Operation::Insert {
        None
    } else {
        gate_text(merged(ps, table, op, Clause::Using))
    }
}

/// The guard on the rows a statement writes. A selection and a deletion
/// write none.
pub open spec fn check_text(ps: Seq<PolicyModel>, table: Seq<char>, op: Operation) -> Option<
    Seq<char>,
> {
    if writes(op) {
        gate_text(merged(ps, table, op, Clause::Check))
    } else {
        None
    }
}

/// What `build` returns.
///
/// A name without the identifier shape fails the whole request; so does a
/// write without columns. Otherwise the statement is that of the operation,
/// with the merged `using` predicate as its WHERE clause, one parameter for
/// each written value in the order of the fields, and the merged `check`
/// predicate as its guard.
pub open spec fn build_outcome(
    schema: Seq<char>,
    table: Seq<char>,
    op: Operation,
    names: Seq<Seq<char>>,
    values: Seq<JsonModel>,
    ps: Seq<PolicyModel>,
) -> Result<StatementModel, BuildError> {
    if !all_identifiers(names) {
        Err(BuildError::InvalidColumnSet)
    } else if writes(op) && names.len() == 0 {
        Err(BuildError::EmptyWriteSet)
    } else {
        Ok(
            StatementModel {
                sql: statement_text(schema, table, op, names, using_text(ps, table, op)),
                params: if writes(op) {
                    values.map_values(|v: JsonModel| param_of(v))
                } else {
                    Seq::empty()
                },
                check: check_text(ps, table, op),
            },
        )
    }
}

/// The model of a result of `build`.
pub open spec fn outcome_model(r: Result<ParameterizedStatement, BuildError>) -> Result<
    StatementModel,
    BuildError,
> {
    match r {
        Ok(s) => Ok(s@),
        Err(e) => Err(e),
    }
}

/// Writes a gate as the expression that a statement carries.
pub fn gate_expression(gate: Gate) -> (text: Option<String>)
    ensures
        opt_text(text) == gate_text(gate@),
{
    match gate {
        Gate::Open => None,
        Gate::Closed => Some("FALSE".to_owned()),
        Gate::Where(e) => Some(e),
    }
}

/// Writes `row_as_json(table)`.
pub fn row_as_json_expression(table: &str) -> (text: String)
    ensures
        text@ == row_as_json(table@),
{
    let mut text = "row_to_json(".to_owned();
    text.append(table);
    text.append(".*) as data");
    text
}

/// The statement that tells whether a written row satisfies a guard: it
/// reads the row, bound as one JSON document, as a row of the table, and asks
/// whether the guard holds of it.
pub open spec fn guard_probe_text(schema: Seq<char>, table: Seq<char>, guard: Seq<char>) -> Seq<
    char,
> {
    "SELECT EXISTS (SELECT 1 FROM json_populate_record(NULL::\""@ + schema + "\".\""@ + table
        + "\", $1) WHERE "@ + guard + ")"@
}

/// Writes the statement that the executor runs, inside the transaction of a
/// write, against each row that the write returned: its one parameter is the
/// row, and its one result tells whether the guard holds of it. The names of
/// the table are identifiers; the guard is the merged `check` predicate.
pub fn guard_probe(table: &TableSchema, guard: &str) -> (sql: String)
    ensures
        sql@ == guard_probe_text(table.schema_text(), table.table_text(), guard@),
{
    let mut sql = "SELECT EXISTS (SELECT 1 FROM json_populate_record(NULL::\"".to_owned();
    sql.append(table.schema());
    sql.append("\".\"");
    sql.append(table.table());
    sql.append("\", $1) WHERE ");
    sql.append(guard);
    sql.append(")");
    sql
}

/// Copies the names of the fields, and tells whether all of them have the
/// identifier shape.
pub fn checked_names(fields: &Vec<JsonMember>) -> (r: (Vec<String>, bool))
    ensures
        texts(r.0@) == field_names(fields@),
        r.1 == all_identifiers(field_names(fields@)),
{
    let mut names: Vec<String> = Vec::new();
    let mut valid = true;
    let n: usize = fields.len();
    let mut i: usize = 0;
    while i < n
        invariant
            n == fields@.len(),
            i <= n,
            texts(names@) == field_names(fields@).take(i as int),
            valid == all_identifiers(field_names(fields@).take(i as int)),
        decreases n - i,
    {
        let ghost before = field_names(fields@).take(i as int);
        let ghost after = field_names(fields@).take(i + 1);
        let name = fields[i].name.clone();
        let ok = check_identifier(name.as_str());
        proof {
            assert(after =~= before.push(name@));
            if valid && ok {
                assert forall|j: int| 0 <= j < after.len() implies is_identifier(
                    #[trigger] after[j],
                ) by {
                    if j < i {
                        assert(after[j] == before[j]);
                    }
                }
            }
            if !valid {
                let w = choose|j: int| 0 <= j < before.len() && !is_identifier(#[trigger] before[j]);
                assert(after[w] == before[w]);
            }
            if !ok {
                assert(!is_identifier(after[i as int]));
            }
        }
        if !ok {
            valid = false;
        }
        names.push(name);
        assert(texts(names@) =~= after);
        i += 1;
    }
    assert(field_names(fields@).take(n as int) =~= field_names(fields@));
    (names, valid)
}

/// Maps the value of each field to the parameter that binds it.
pub fn bound_params(fields: &Vec<JsonMember>) -> (params: Vec<TypedParam>)
    ensures
        param_models(params@) == field_values(fields@).map_values(|v: JsonModel| param_of(v)),
{
    let mut params: Vec<TypedParam> = Vec::new();
    let n: usize = fields.len();
    let mut i: usize = 0;
    while i < n
        invariant
            n == fields@.len(),
            i <= n,
            params@.len() == i,
            forall|j: int| 0 <= j < i ==> (#[trigger] params@[j])@ == param_of(fields@[j].value@),
        decreases n - i,
    {
        params.push(json_to_sea(&fields[i].value));
        i += 1;
    }
    assert(param_models(params@) =~= field_values(fields@).map_values(
        |v: JsonModel| param_of(v),
    ));
    params
}

/// Where the field of that name stands: the index of the first one, or the
/// length of the list where there is none.
pub open spec fn field_position(names: Seq<Seq<char>>, name: Seq<char>) -> int
    decreases names.len(),
{
    if names.len() == 0 {
        0
    } else if names[0] == name {
        0
    } else {
        1 + field_position(names.skip(1), name)
    }
}

/// The index before which no field bears the name, and at which one does or
/// the list ends, is the field's position.
pub proof fn lemma_field_position(names: Seq<Seq<char>>, name: Seq<char>, at: int)
    requires
        0 <= at <= names.len(),
        forall|j: int| 0 <= j < at ==> names[j] != name,
        at < names.len() ==> names[at] == name,
    ensures
        field_position(names, name) == at,
    decreases names.len(),
{
    if names.len() > 0 && at > 0 {
        let rest = names.skip(1);
        assert forall|j: int| 0 <= j < at - 1 implies rest[j] != name by {
            assert(rest[j] == names[j + 1]);
        }
        lemma_field_position(rest, name, at - 1);
    }
}

/// Sets a field of a request: a field of a new name goes to the end, and a
/// field of a name that is there already takes the place of the old one.
pub fn put_field(fields: &mut Vec<JsonMember>, name: String, value: JsonValue)
    ensures
        field_position(field_names(old(fields)@), name@) < old(fields)@.len() ==> {
            &&& field_names(final(fields)@) == field_names(old(fields)@)
            &&& field_values(final(fields)@) == field_values(old(fields)@).update(
                field_position(field_names(old(fields)@), name@),
                value@,
            )
        },
        field_position(field_names(old(fields)@), name@) >= old(fields)@.len() ==> {
            &&& field_names(final(fields)@) == field_names(old(fields)@).push(name@)
            &&& field_values(final(fields)@) == field_values(old(fields)@).push(value@)
        },
        field_names(old(fields)@).no_duplicates() ==> field_names(final(fields)@).no_duplicates(),
{
    let ghost names = field_names(fields@);
    let ghost values = field_values(fields@);
    let n: usize = fields.len();
    let mut i: usize = 0;
    while i < n
        invariant
            n == fields@.len(),
            i <= n,
            fields@ == old(fields)@,
            names == field_names(fields@),
            values == field_values(fields@),
            forall|j: int| 0 <= j < i ==> names[j] != name@,
        decreases n - i,
    {
        if crate::text::same_text(fields[i].name.as_str(), name.as_str()) {
            proof {
                lemma_field_position(names, name@, i as int);
            }
            let ghost model = value@;
            fields.set(i, JsonMember { name, value });
            assert(field_names(fields@) =~= names);
            assert(field_values(fields@) =~= values.update(i as int, model));
            return ;
        }
        i += 1;
    }
    proof {
        lemma_field_position(names, name@, n as int);
    }
    let ghost model = value@;
    let ghost text = name@;
    fields.push(JsonMember { name, value });
    assert(field_names(fields@) =~= names.push(text));
    assert(field_values(fields@) =~= values.push(model));
    proof {
        if names.no_duplicates() {
            let after = names.push(text);
            assert forall|i: int, j: int|
                0 <= i < after.len() && 0 <= j < after.len() && i != j implies after[i]
                != after[j] by {
                if i < names.len() && j < names.len() {
                    assert(after[i] == names[i] && after[j] == names[j]);
                } else if i < names.len() {
                    assert(after[i] == names[i]);
                } else {
                    assert(after[j] == names[j]);
                }
            }
        }
    }
}

/// Builds the statement for one operation on one table.
///
/// `fields` are the columns and values of a write. For a selection or a
/// deletion they only name the columns that the request refers to: the names
/// are checked, and nothing of them is written into the statement.
/// `policies` are the policies of the store; those of other tables and the
/// disabled ones are passed over.
pub fn build(
    table: &TableSchema,
    op: Operation,
    fields: &Vec<JsonMember>,
    policies: &Vec<AccessPolicy>,
) -> (r: Result<ParameterizedStatement, BuildError>)
    ensures
        outcome_model(r) == build_outcome(
            table.schema_text(),
            table.table_text(),
            op,
            field_names(fields@),
            field_values(fields@),
            models(policies@),
        ),
{
    let (names, valid) = checked_names(fields);
    if !valid {
        return Err(BuildError::InvalidColumnSet);
    }
    let write = match op {
        Operation::Insert => true,
        Operation::Update => true,
        Operation::Select => false,
        Operation::Delete => false,
    };
    if write && names.len() == 0 {
        return Err(BuildError::EmptyWriteSet);
    }
    let schema_name = table.schema();
    let table_name = table.table();
    let using = match op {
        Operation::Insert => None,
        _ => gate_expression(merge_policies(policies, table_name, op, Clause::Using)),
    };
    let check = if write {
        gate_expression(merge_policies(policies, table_name, op, Clause::Check))
    } else {
        None
    };
    let sql = match op {
        Operation::Insert => {
            let returning = row_as_json_expression(table_name);
            render_insert(schema_name, table_name, &names, returning.as_str())
        },
        Operation::Update => {
            let returning = row_as_json_expression(table_name);
            render_update(schema_name, table_name, &names, &using, returning.as_str())
        },
        Operation::Select => render_select(schema_name, table_name, &using),
        Operation::Delete => render_delete(schema_name, table_name, &using),
    };
    let params = if write {
        bound_params(fields)
    } else {
        Vec::new()
    };
    let statement = ParameterizedStatement { sql, params, check };
    assert(statement@.params =~= if writes(op) {
        field_values(fields@).map_values(|v: JsonModel| param_of(v))
    } else {
        Seq::empty()
    });
    Ok(statement)
}

/// On a table without an enabled policy `build` adds no predicate and no
/// guard: the statement is the one that the operation has by itself.
pub proof fn law_no_policy_plain_statement(
    schema: Seq<char>,
    table: Seq<char>,
    op: Operation,
    names: Seq<Seq<char>>,
    values: Seq<JsonModel>,
    ps: Seq<PolicyModel>,
)
    requires
        !any_in_force(ps, table),
        build_outcome(schema, table, op, names, values, ps) is Ok,
    ensures
        build_outcome(schema, table, op, names, values, ps)->Ok_0.sql == statement_text(
            schema,
            table,
            op,
            names,
            None,
        ),
        build_outcome(schema, table, op, names, values, ps)->Ok_0.check is None,
{
}

/// `build` fails with `InvalidColumnSet` exactly where some name lacks the
/// identifier shape, and with `EmptyWriteSet` exactly where all names have it
/// and a write names no column.
pub proof fn law_build_errors(
    schema: Seq<char>,
    table: Seq<char>,
    op: Operation,
    names: Seq<Seq<char>>,
    values: Seq<JsonModel>,
    ps: Seq<PolicyModel>,
)
    ensures
        build_outcome(schema, table, op, names, values, ps) == Err::<StatementModel, BuildError>(
            BuildError::InvalidColumnSet,
        ) <==> !all_identifiers(names),
        build_outcome(schema, table, op, names, values, ps) == Err::<StatementModel, BuildError>(
            BuildError::EmptyWriteSet,
        ) <==> writes(op) && names.len() == 0,
        build_outcome(schema, table, op, names, values, ps) is Ok <==> all_identifiers(names) && !(
        writes(op) && names.len() == 0),
{
}

/// A column name that holds a quote, a semicolon or white space fails the
/// request, whatever else it holds.
pub proof fn law_unsafe_name_fails(
    schema: Seq<char>,
    table: Seq<char>,
    op: Operation,
    names: Seq<Seq<char>>,
    values: Seq<JsonModel>,
    ps: Seq<PolicyModel>,
    k: int,
    i: int,
)
    requires
        0 <= k < names.len(),
        0 <= i < names[k].len(),
        names[k][i] == '\'' || names[k][i] == '"' || names[k][i] == '`' || names[k][i] == ';'
            || names[k][i] == ' ' || names[k][i] == '\t' || names[k][i] == '\n' || names[k][i]
            == '\r',
    ensures
        build_outcome(schema, table, op, names, values, ps) == Err::<StatementModel, BuildError>(
            BuildError::InvalidColumnSet,
        ),
{
    crate::ident::lemma_unsafe_character_rejected(names[k], i);
}

} // verus!
