//! The description of a table, as the catalog hands it out and as the rest
//! of the crate reads it.
//!
//! The catalog answers one query with one document: the table's row, its
//! enabled policies, and its columns joined with their foreign keys and
//! indexes. `describe` turns that document into a `TableDescriptor`, whose
//! columns stand in the order of their positions and bear distinct names.

use vstd::prelude::*;
use crate::policy::{AccessPolicy, PolicyKind, PolicyModel, PolicyScope};
use crate::text::{copy_opt, opt_text, pieces, same_text, split_text, texts};

verus! {

/// The table's row of the catalog, with its policies and columns.
#[derive(Debug)]
pub struct TableDetails {
    pub name: String,
    pub kind: Option<String>,
    pub schema: Option<String>,
    pub sql: Option<String>,
    pub policies: Vec<Policy>,
    pub columns: Vec<ColumnDetails>,
}

/// A policy as the store holds it.
#[derive(Debug)]
pub struct Policy {
    pub id: i64,
    pub name: Option<String>,
    pub description: Option<String>,
    pub is_enabled: i16,
    pub operation: Option<String>,
    pub policy_type: Option<String>,
    pub using_expr: Option<String>,
    pub check_expr: Option<String>,
}

/// A column as the catalog reports it, joined with the foreign key that
/// starts at it and the indexes that cover it.
#[derive(Debug)]
pub struct ColumnDetails {
    pub column_id: Option<i64>,
    pub column_name: String,
    pub data_type: String,
    pub is_not_null: i16,
    pub default_value: Option<String>,
    pub is_primary_key: i16,
    pub primary_key_order: Option<i64>,
    pub generated_column_type: Option<i64>,
    pub is_foreign_key: i16,
    pub reference_table: Option<String>,
    pub reference_column: Option<String>,
    pub foreign_key_on_update: Option<String>,
    pub foreign_key_on_delete: Option<String>,
    pub part_of_index: Option<String>,
}

/// The one row that the catalog query returns.
#[derive(Debug)]
pub struct TableOutput {
    pub table_details: TableDetails,
}

/// How a column gets its value.
#[derive(Clone, Copy, Debug, PartialEq, Eq, Structural)]
pub enum GenerationKind {
    Normal,
    Virtual,
    Stored,
}

/// The edge from a column to the column it refers to.
#[derive(Debug)]
pub struct ForeignKey {
    pub references_table: String,
    pub references_column: Option<String>,
    pub on_update: Option<String>,
    pub on_delete: Option<String>,
}

/// One column of a table.
#[derive(Debug)]
pub struct ColumnDescriptor {
    pub position: i64,
    pub name: String,
    pub declared_type: String,
    pub is_not_null: bool,
    pub default_value: Option<String>,
    pub is_primary_key: bool,
    pub primary_key_order: Option<i64>,
    pub generation_kind: GenerationKind,
    pub foreign_key: Option<ForeignKey>,
    pub index_membership: Vec<String>,
}

/// The shape of one table.
#[derive(Debug)]
pub struct TableDescriptor {
    pub name: String,
    pub schema: String,
    pub origin_sql: Option<String>,
    pub columns: Vec<ColumnDescriptor>,
    pub policies: Vec<AccessPolicy>,
}

/// Why a table could not be described.
#[derive(Clone, Copy, Debug, PartialEq, Eq, Structural)]
pub enum SchemaError {
    /// The catalog knows no table of that name.
    NotFound,
    /// The catalog's answer is not what a catalog answers.
    CatalogError,
}

/// The model of a [`ForeignKey`].
pub struct ForeignKeyModel {
    pub references_table: Seq<char>,
    pub references_column: Option<Seq<char>>,
    pub on_update: Option<Seq<char>>,
    pub on_delete: Option<Seq<char>>,
}

/// The model of a [`ColumnDescriptor`].
pub struct ColumnModel {
    pub position: i64,
    pub name: Seq<char>,
    pub declared_type: Seq<char>,
    pub is_not_null: bool,
    pub default_value: Option<Seq<char>>,
    pub is_primary_key: bool,
    pub primary_key_order: Option<i64>,
    pub generation_kind: GenerationKind,
    pub foreign_key: Option<ForeignKeyModel>,
    pub index_membership: Seq<Seq<char>>,
}

/// The model of a [`TableDescriptor`].
pub struct TableModel {
    pub name: Seq<char>,
    pub schema: Seq<char>,
    pub origin_sql: Option<Seq<char>>,
    pub columns: Seq<ColumnModel>,
    pub policies: Seq<PolicyModel>,
}

impl View for ForeignKey {
    type V = ForeignKeyModel;

    open spec fn view(&self) -> ForeignKeyModel {
        ForeignKeyModel {
            references_table: self.references_table@,
            references_column: opt_text(self.references_column),
            on_update: opt_text(self.on_update),
            on_delete: opt_text(self.on_delete),
        }
    }
}

impl View for ColumnDescriptor {
    type V = ColumnModel;

    open spec fn view(&self) -> ColumnModel {
        ColumnModel {
            position: self.position,
            name: self.name@,
            declared_type: self.declared_type@,
            is_not_null: self.is_not_null,
            default_value: opt_text(self.default_value),
            is_primary_key: self.is_primary_key,
            primary_key_order: self.primary_key_order,
            generation_kind: self.generation_kind,
            foreign_key: match self.foreign_key {
                Some(fk) => Some(fk@),
                None => None,
            },
            index_membership: texts(self.index_membership@),
        }
    }
}

/// The models of a list of columns.
pub open spec fn column_models(columns: Seq<ColumnDescriptor>) -> Seq<ColumnModel> {
    columns.map_values(|c: ColumnDescriptor| c@)
}

impl View for TableDescriptor {
    type V = TableModel;

    open spec fn view(&self) -> TableModel {
        TableModel {
            name: self.name@,
            schema: self.schema@,
            origin_sql: opt_text(self.origin_sql),
            columns: column_models(self.columns@),
            policies: crate::policy::models(self.policies@),
        }
    }
}

/// Positions rise strictly from one column to the next.
pub open spec fn by_position(columns: Seq<ColumnModel>) -> bool {
    forall|i: int, j: int|
        0 <= i < j < columns.len() ==> (#[trigger] columns[i]).position < (
        #[trigger] columns[j]).position
}

/// No two columns bear one name.
pub open spec fn distinct_names(columns: Seq<ColumnModel>) -> bool {
    forall|i: int, j: int|
        0 <= i < j < columns.len() ==> (#[trigger] columns[i]).name != (#[trigger] columns[j]).name
}

/// A column that is no primary key has no place in one.
pub open spec fn key_order_only_on_keys(columns: Seq<ColumnModel>) -> bool {
    forall|i: int|
        0 <= i < columns.len() && !(#[trigger] columns[i]).is_primary_key
            ==> columns[i].primary_key_order is None
}

/// Every policy is enabled, belongs to the table and carries an expression.
pub open spec fn policies_in_force(policies: Seq<PolicyModel>, table: Seq<char>) -> bool {
    forall|i: int|
        0 <= i < policies.len() ==> {
            &&& (#[trigger] policies[i]).enabled
            &&& policies[i].table == table
            &&& (policies[i].using_expr is Some || policies[i].check_expr is Some)
        }
}

/// What holds of every descriptor that `describe` returns.
pub open spec fn well_formed(table: TableModel) -> bool {
    &&& by_position(table.columns)
    &&& distinct_names(table.columns)
    &&& key_order_only_on_keys(table.columns)
    &&& policies_in_force(table.policies, table.name)
}

// ---------------------------------------------------------------------
// Index names
// ---------------------------------------------------------------------

/// The pieces that are not empty, each once, in the order of their first
/// occurrence.
pub open spec fn distinct_pieces(pieces: Seq<Seq<char>>) -> Seq<Seq<char>>
    decreases pieces.len(),
{
    if pieces.len() == 0 {
        Seq::<Seq<char>>::empty()
    } else {
        let rest = distinct_pieces(pieces.drop_last());
        if pieces.last().len() == 0 || rest.contains(pieces.last()) {
            rest
        } else {
            rest.push(pieces.last())
        }
    }
}

/// The names of the indexes that a joined field lists.
pub open spec fn index_names(joined: Option<Seq<char>>) -> Seq<Seq<char>> {
    match joined {
        Some(s) => distinct_pieces(pieces(s, ',')),
        None => Seq::<Seq<char>>::empty(),
    }
}

/// Tells whether `name` is among `names`.
pub fn is_listed(names: &Vec<String>, name: &str) -> (found: bool)
    ensures
        found == texts(names@).contains(name@),
{
    let n: usize = names.len();
    let mut i: usize = 0;
    while i < n
        invariant
            n == names@.len(),
            i <= n,
            forall|j: int| 0 <= j < i ==> texts(names@)[j] != name@,
        decreases n - i,
    {
        if same_text(names[i].as_str(), name) {
            assert(texts(names@)[i as int] == name@);
            return true;
        }
        i += 1;
    }
    false
}

/// Keeps each piece that is not empty once.
pub fn keep_distinct(pieces: Vec<String>) -> (names: Vec<String>)
    ensures
        texts(names@) == distinct_pieces(texts(pieces@)),
{
    let mut names: Vec<String> = Vec::new();
    let n: usize = pieces.len();
    let mut i: usize = 0;
    assert(texts(pieces@).take(0) =~= Seq::<Seq<char>>::empty());
    while i < n
        invariant
            n == pieces@.len(),
            i <= n,
            texts(names@) == distinct_pieces(texts(pieces@).take(i as int)),
        decreases n - i,
    {
        let ghost before = texts(pieces@).take(i as int);
        let ghost after = texts(pieces@).take(i + 1);
        proof {
            assert(after.drop_last() =~= before);
            assert(after.last() == pieces@[i as int]@);
        }
        let piece = &pieces[i];
        if piece.as_str().unicode_len() > 0 && !is_listed(&names, piece.as_str()) {
            proof {
                names@.lemma_push_map_commute(|s: String| s@, *piece);
            }
            names.push(piece.clone());
        }
        i += 1;
    }
    assert(texts(pieces@).take(n as int) =~= texts(pieces@));
    names
}

// ---------------------------------------------------------------------
// Columns
// ---------------------------------------------------------------------

/// The generation kind behind the catalog's number: nothing, 0 and 1 for a
/// column that is not generated (1 marks a hidden column of a virtual table),
/// 2 for a virtual generated column, 3 for a stored one.
pub open spec fn generation_of(code: Option<i64>) -> Option<GenerationKind> {
    match code {
        None => Some(GenerationKind::Normal),
        Some(c) => if c == 0 || c == 1 {
            Some(GenerationKind::Normal)
        } else if c == 2 {
            Some(GenerationKind::Virtual)
        } else if c == 3 {
            Some(GenerationKind::Stored)
        } else {
            None
        },
    }
}

/// The foreign key of a column that has one.
pub open spec fn foreign_key_of(raw: ColumnDetails) -> ForeignKeyModel {
    ForeignKeyModel {
        references_table: raw.reference_table->0@,
        references_column: opt_text(raw.reference_column),
        on_update: opt_text(raw.foreign_key_on_update),
        on_delete: opt_text(raw.foreign_key_on_delete),
    }
}

/// The column is one that a catalog reports: it has a position, a known
/// generation kind, a place in the key if it belongs to it, and the table it
/// refers to if it refers to one.
pub open spec fn column_is_sound(raw: ColumnDetails) -> bool {
    &&& raw.column_id is Some
    &&& generation_of(raw.generated_column_type) is Some
    &&& raw.is_primary_key != 0 ==> raw.primary_key_order is Some
    &&& raw.is_foreign_key != 0 ==> raw.reference_table is Some
}

/// The descriptor of a sound column.
pub open spec fn descriptor_of(raw: ColumnDetails) -> ColumnModel {
    ColumnModel {
        position: raw.column_id->0,
        name: raw.column_name@,
        declared_type: raw.data_type@,
        is_not_null: raw.is_not_null != 0,
        default_value: opt_text(raw.default_value),
        is_primary_key: raw.is_primary_key != 0,
        primary_key_order: if raw.is_primary_key != 0 {
            raw.primary_key_order
        } else {
            None
        },
        generation_kind: generation_of(raw.generated_column_type)->0,
        foreign_key: if raw.is_foreign_key != 0 {
            Some(foreign_key_of(raw))
        } else {
            None
        },
        index_membership: index_names(opt_text(raw.part_of_index)),
    }
}

impl ColumnDetails {
    /// Turns the catalog's column into a descriptor; fails where the column
    /// is not sound.
    pub fn to_descriptor(&self) -> (r: Result<ColumnDescriptor, SchemaError>)
        ensures
            r is Ok <==> column_is_sound(*self),
            r matches Ok(c) ==> c@ == descriptor_of(*self),
            r matches Err(e) ==> e == SchemaError::CatalogError,
    {
        let position = match self.column_id {
            Some(p) => p,
            None => { return Err(SchemaError::CatalogError); },
        };
        let generation_kind = match self.generated_column_type {
            None => GenerationKind::Normal,
            Some(0) => GenerationKind::Normal,
            Some(1) => GenerationKind::Normal,
            Some(2) => GenerationKind::Virtual,
            Some(3) => GenerationKind::Stored,
            Some(_) => { return Err(SchemaError::CatalogError); },
        };
        let is_primary_key = self.is_primary_key != 0;
        let primary_key_order = if is_primary_key {
            match self.primary_key_order {
                Some(o) => Some(o),
                None => { return Err(SchemaError::CatalogError); },
            }
        } else {
            None
        };
        let foreign_key = if self.is_foreign_key != 0 {
            match &self.reference_table {
                Some(t) => Some(
                    ForeignKey {
                        references_table: t.clone(),
                        references_column: copy_opt(&self.reference_column),
                        on_update: copy_opt(&self.foreign_key_on_update),
                        on_delete: copy_opt(&self.foreign_key_on_delete),
                    },
                ),
                None => { return Err(SchemaError::CatalogError); },
            }
        } else {
            None
        };
        let index_membership = match &self.part_of_index {
            Some(joined) => keep_distinct(split_text(joined.as_str(), ',')),
            None => Vec::new(),
        };
        let column = ColumnDescriptor {
            position,
            name: self.column_name.clone(),
            declared_type: self.data_type.clone(),
            is_not_null: self.is_not_null != 0,
            default_value: copy_opt(&self.default_value),
            is_primary_key,
            primary_key_order,
            generation_kind,
            foreign_key,
            index_membership,
        };
        proof {
            let want = descriptor_of(*self);
            assert(column@.index_membership =~= want.index_membership);
            assert(column@.foreign_key == want.foreign_key);
            assert(column@.generation_kind == want.generation_kind);
            assert(column@.primary_key_order == want.primary_key_order);
        }
        Ok(column)
    }
}

/// Some column bears the name.
pub open spec fn has_name(columns: Seq<ColumnModel>, name: Seq<char>) -> bool {
    exists|i: int| 0 <= i < columns.len() && (#[trigger] columns[i]).name == name
}

/// Some column stands at the position.
pub open spec fn has_position(columns: Seq<ColumnModel>, position: i64) -> bool {
    exists|i: int| 0 <= i < columns.len() && (#[trigger] columns[i]).position == position
}

/// Where a column of that position goes: behind every column of a lower
/// position.
pub open spec fn place_of(columns: Seq<ColumnModel>, position: i64) -> int
    decreases columns.len(),
{
    if columns.len() == 0 {
        0
    } else if columns.last().position < position {
        columns.len() as int
    } else {
        place_of(columns.drop_last(), position)
    }
}

/// Adds one column to the columns gathered so far.
///
/// A column whose name is there already is the same column joined with
/// another foreign key: the first one stays and this one is passed over. Two
/// columns of different names at one position are no catalog's answer.
pub open spec fn placed(columns: Seq<ColumnModel>, c: ColumnModel) -> Option<Seq<ColumnModel>> {
    if has_name(columns, c.name) {
        Some(columns)
    } else if has_position(columns, c.position) {
        None
    } else {
        Some(columns.insert(place_of(columns, c.position), c))
    }
}

/// The columns of a descriptor: every sound column placed in turn.
pub open spec fn arranged(raw: Seq<ColumnDetails>) -> Option<Seq<ColumnModel>>
    decreases raw.len(),
{
    if raw.len() == 0 {
        Some(Seq::<ColumnModel>::empty())
    } else {
        match arranged(raw.drop_last()) {
            Some(columns) => if column_is_sound(raw.last()) {
                placed(columns, descriptor_of(raw.last()))
            } else {
                None
            },
            None => None,
        }
    }
}

/// In columns that stand by position, `place_of` parts the lower positions
/// from the others.
pub proof fn lemma_place_parts(columns: Seq<ColumnModel>, position: i64)
    requires
        by_position(columns),
    ensures
        0 <= place_of(columns, position) <= columns.len(),
        forall|i: int|
            0 <= i < place_of(columns, position) ==> (#[trigger] columns[i]).position < position,
        forall|i: int|
            place_of(columns, position) <= i < columns.len() ==> (#[trigger] columns[i]).position
                >= position,
    decreases columns.len(),
{
    if columns.len() > 0 {
        let front = columns.drop_last();
        assert(by_position(front)) by {
            assert forall|i: int, j: int| 0 <= i < j < front.len() implies (
            #[trigger] front[i]).position < (#[trigger] front[j]).position by {
                assert(front[i] == columns[i] && front[j] == columns[j]);
            }
        }
        if columns.last().position < position {
            assert forall|i: int| 0 <= i < columns.len() implies (#[trigger] columns[i]).position
                < position by {
                if i < columns.len() - 1 {
                    assert(columns[i].position < columns[columns.len() - 1].position);
                }
            }
        } else {
            lemma_place_parts(front, position);
            assert forall|i: int| 0 <= i < place_of(columns, position) implies (
            #[trigger] columns[i]).position < position by {
                assert(columns[i] == front[i]);
            }
            assert forall|i: int| place_of(columns, position) <= i < columns.len() implies (
            #[trigger] columns[i]).position >= position by {
                if i < front.len() {
                    assert(columns[i] == front[i]);
                }
            }
        }
    }
}

/// Placing a column keeps the order of positions and the names distinct.
pub proof fn lemma_placed_keeps_order(columns: Seq<ColumnModel>, c: ColumnModel)
    requires
        by_position(columns),
        distinct_names(columns),
        placed(columns, c) is Some,
    ensures
        by_position(placed(columns, c)->0),
        distinct_names(placed(columns, c)->0),
{
    if !has_name(columns, c.name) {
        lemma_place_parts(columns, c.position);
        let at = place_of(columns, c.position);
        let after = columns.insert(at, c);
        assert forall|i: int| 0 <= i < columns.len() implies (#[trigger] columns[i]).position
            != c.position && columns[i].name != c.name by {}
        assert forall|i: int, j: int| 0 <= i < j < after.len() implies (
        #[trigger] after[i]).position < (#[trigger] after[j]).position by {
            if i < at && j < at {
                assert(after[i] == columns[i] && after[j] == columns[j]);
            } else if i < at && j == at {
                assert(after[i] == columns[i]);
            } else if i < at && j > at {
                assert(after[i] == columns[i] && after[j] == columns[j - 1]);
            } else if i == at {
                assert(after[j] == columns[j - 1]);
            } else {
                assert(after[i] == columns[i - 1] && after[j] == columns[j - 1]);
            }
        }
        assert forall|i: int, j: int| 0 <= i < j < after.len() implies (#[trigger] after[i]).name
            != (#[trigger] after[j]).name by {
            if i < at && j < at {
                assert(after[i] == columns[i] && after[j] == columns[j]);
            } else if i < at && j == at {
                assert(after[i] == columns[i]);
            } else if i < at && j > at {
                assert(after[i] == columns[i] && after[j] == columns[j - 1]);
            } else if i == at {
                assert(after[j] == columns[j - 1]);
            } else {
                assert(after[i] == columns[i - 1] && after[j] == columns[j - 1]);
            }
        }
    }
}

/// Adds one column to the columns gathered so far; `None` where another
/// column stands at its position.
pub fn place_column(gathered: Vec<ColumnDescriptor>, c: ColumnDescriptor) -> (r: Option<
    Vec<ColumnDescriptor>,
>)
    requires
        by_position(column_models(gathered@)),
    ensures
        r is Some <==> placed(column_models(gathered@), c@) is Some,
        r matches Some(out) ==> column_models(out@) == placed(column_models(gathered@), c@)->0,
{
    let ghost before = column_models(gathered@);
    let mut columns = gathered;
    let n: usize = columns.len();
    let mut i: usize = 0;
    while i < n
        invariant
            n == columns@.len(),
            i <= n,
            before == column_models(columns@),
            before == column_models(gathered@),
            forall|j: int| 0 <= j < i ==> (#[trigger] before[j]).name != c@.name,
        decreases n - i,
    {
        if same_text(columns[i].name.as_str(), c.name.as_str()) {
            assert(before[i as int].name == c@.name);
            return Some(columns);
        }
        i += 1;
    }
    assert(!has_name(before, c@.name));
    let mut at: usize = n;
    assert(before.take(n as int) =~= before);
    while at > 0 && columns[at - 1].position >= c.position
        invariant
            at <= n,
            n == columns@.len(),
            before == column_models(columns@),
            place_of(before, c.position) == place_of(before.take(at as int), c.position),
        decreases at,
    {
        assert(before.take(at as int).drop_last() =~= before.take(at - 1));
        assert(before.take(at as int).last() == before[at - 1]);
        at -= 1;
    }
    proof {
        if at > 0 {
            assert(before.take(at as int).last() == before[at - 1]);
        }
        assert(place_of(before, c.position) == at);
        lemma_place_parts(before, c.position);
    }
    if at < n && columns[at].position == c.position {
        assert(before[at as int].position == c@.position);
        return None;
    }
    proof {
        assert forall|j: int| 0 <= j < before.len() implies (#[trigger] before[j]).position
            != c@.position by {
            if j > at {
                assert(before[at as int].position < before[j].position);
            }
        }
    }
    let ghost model = c@;
    columns.insert(at, c);
    assert(column_models(columns@) =~= before.insert(at as int, model));
    Some(columns)
}

/// Turns the catalog's columns into descriptors by position.
pub fn arrange_columns(raw: &Vec<ColumnDetails>) -> (r: Result<Vec<ColumnDescriptor>, SchemaError>)
    ensures
        r is Ok <==> arranged(raw@) is Some,
        r matches Ok(columns) ==> {
            &&& column_models(columns@) == arranged(raw@)->0
            &&& by_position(column_models(columns@))
            &&& distinct_names(column_models(columns@))
            &&& key_order_only_on_keys(column_models(columns@))
        },
        r matches Err(e) ==> e == SchemaError::CatalogError,
{
    let mut columns: Vec<ColumnDescriptor> = Vec::new();
    let n: usize = raw.len();
    let mut i: usize = 0;
    assert(raw@.take(0) =~= Seq::<ColumnDetails>::empty());
    while i < n
        invariant
            n == raw@.len(),
            i <= n,
            arranged(raw@.take(i as int)) == Some(column_models(columns@)),
            by_position(column_models(columns@)),
            distinct_names(column_models(columns@)),
            key_order_only_on_keys(column_models(columns@)),
        decreases n - i,
    {
        let ghost gathered = column_models(columns@);
        proof {
            assert(raw@.take(i + 1).drop_last() =~= raw@.take(i as int));
            assert(raw@.take(i + 1).last() == raw@[i as int]);
            lemma_arranged_fails_on(raw@, i + 1);
        }
        let c = match raw[i].to_descriptor() {
            Ok(c) => c,
            Err(_) => { return Err(SchemaError::CatalogError); },
        };
        let ghost model = c@;
        match place_column(columns, c) {
            Some(next) => {
                proof {
                    lemma_placed_keeps_order(gathered, model);
                    lemma_placed_keeps_keys(gathered, model);
                }
                columns = next;
            },
            None => { return Err(SchemaError::CatalogError); },
        }
        i += 1;
    }
    assert(raw@.take(n as int) =~= raw@);
    Ok(columns)
}

/// Once a prefix cannot be arranged, the whole cannot.
pub proof fn lemma_arranged_fails_on(raw: Seq<ColumnDetails>, k: int)
    requires
        0 <= k <= raw.len(),
    ensures
        arranged(raw.take(k)) is None ==> arranged(raw) is None,
    decreases raw.len() - k,
{
    if k < raw.len() {
        assert(raw.take(k + 1).drop_last() =~= raw.take(k));
        lemma_arranged_fails_on(raw, k + 1);
    } else {
        assert(raw.take(k) =~= raw);
    }
}

/// Placing a column of a sound shape keeps key orders on keys only.
pub proof fn lemma_placed_keeps_keys(columns: Seq<ColumnModel>, c: ColumnModel)
    requires
        by_position(columns),
        key_order_only_on_keys(columns),
        !c.is_primary_key ==> c.primary_key_order is None,
        placed(columns, c) is Some,
    ensures
        key_order_only_on_keys(placed(columns, c)->0),
{
    if !has_name(columns, c.name) {
        lemma_place_parts(columns, c.position);
        let at = place_of(columns, c.position);
        let after = columns.insert(at, c);
        assert forall|i: int| 0 <= i < after.len() && !(#[trigger] after[i]).is_primary_key implies 
            after[i].primary_key_order is None by {
            if i < at {
                assert(after[i] == columns[i]);
            } else if i > at {
                assert(after[i] == columns[i - 1]);
            }
        }
    }
}

// ---------------------------------------------------------------------
// Policies
// ---------------------------------------------------------------------

/// The scope that a policy's operation names.
pub open spec fn scope_of(text: Seq<char>) -> Option<PolicyScope> {
    if text == "select"@ {
        Some(PolicyScope::Select)
    } else if text == "update"@ {
        Some(PolicyScope::Update)
    } else if text == "insert"@ {
        Some(PolicyScope::Insert)
    } else if text == "delete"@ {
        Some(PolicyScope::Delete)
    } else if text == "all"@ {
        Some(PolicyScope::All)
    } else {
        None
    }
}

/// The kind that a policy's type names.
pub open spec fn kind_of(text: Seq<char>) -> Option<PolicyKind> {
    if text == "PERMISSIVE"@ {
        Some(PolicyKind::Permissive)
    } else if text == "RESTRICTIVE"@ {
        Some(PolicyKind::Restrictive)
    } else {
        None
    }
}

/// Reads the operation of a policy.
pub fn parse_scope(text: &str) -> (r: Option<PolicyScope>)
    ensures
        r == scope_of(text@),
{
    if same_text(text, "select") {
        Some(PolicyScope::Select)
    } else if same_text(text, "update") {
        Some(PolicyScope::Update)
    } else if same_text(text, "insert") {
        Some(PolicyScope::Insert)
    } else if same_text(text, "delete") {
        Some(PolicyScope::Delete)
    } else if same_text(text, "all") {
        Some(PolicyScope::All)
    } else {
        None
    }
}

/// Reads the type of a policy.
pub fn parse_kind(text: &str) -> (r: Option<PolicyKind>)
    ensures
        r == kind_of(text@),
{
    if same_text(text, "PERMISSIVE") {
        Some(PolicyKind::Permissive)
    } else if same_text(text, "RESTRICTIVE") {
        Some(PolicyKind::Restrictive)
    } else {
        None
    }
}

/// The policy is one that the store can hold: it has a name, a known
/// operation and type, and at least one expression.
pub open spec fn policy_is_sound(raw: Policy) -> bool {
    &&& raw.name is Some
    &&& raw.operation matches Some(op) && scope_of(op@) is Some
    &&& raw.policy_type matches Some(k) && kind_of(k@) is Some
    &&& (raw.using_expr is Some || raw.check_expr is Some)
}

/// A sound policy of the store as a policy of `table`.
pub open spec fn access_policy_of(raw: Policy, table: Seq<char>) -> PolicyModel {
    PolicyModel {
        id: raw.id,
        name: raw.name->0@,
        description: opt_text(raw.description),
        enabled: raw.is_enabled != 0,
        table,
        scope: scope_of(raw.operation->0@)->0,
        kind: kind_of(raw.policy_type->0@)->0,
        using_expr: opt_text(raw.using_expr),
        check_expr: opt_text(raw.check_expr),
    }
}

impl Policy {
    /// Turns the store's policy into a policy of `table`; fails where the
    /// policy is not sound.
    pub fn to_access_policy(&self, table: &str) -> (r: Result<AccessPolicy, SchemaError>)
        ensures
            r is Ok <==> policy_is_sound(*self),
            r matches Ok(p) ==> p@ == access_policy_of(*self, table@),
            r matches Err(e) ==> e == SchemaError::CatalogError,
    {
        let name = match &self.name {
            Some(n) => n.clone(),
            None => { return Err(SchemaError::CatalogError); },
        };
        let operation = match &self.operation {
            Some(text) => match parse_scope(text.as_str()) {
                Some(scope) => scope,
                None => { return Err(SchemaError::CatalogError); },
            },
            None => { return Err(SchemaError::CatalogError); },
        };
        let kind = match &self.policy_type {
            Some(text) => match parse_kind(text.as_str()) {
                Some(kind) => kind,
                None => { return Err(SchemaError::CatalogError); },
            },
            None => { return Err(SchemaError::CatalogError); },
        };
        if self.using_expr.is_none() && self.check_expr.is_none() {
            return Err(SchemaError::CatalogError);
        }
        Ok(
            AccessPolicy {
                id: self.id,
                name,
                description: copy_opt(&self.description),
                is_enabled: self.is_enabled != 0,
                table_name: table.to_owned(),
                operation,
                kind,
                using_expr: copy_opt(&self.using_expr),
                check_expr: copy_opt(&self.check_expr),
            },
        )
    }
}

/// The policies of a descriptor: the enabled ones, each sound, in the order
/// of the store.
pub open spec fn enabled_policies(raw: Seq<Policy>, table: Seq<char>) -> Option<Seq<PolicyModel>>
    decreases raw.len(),
{
    if raw.len() == 0 {
        Some(Seq::<PolicyModel>::empty())
    } else {
        match enabled_policies(raw.drop_last(), table) {
            Some(policies) => if raw.last().is_enabled == 0 {
                Some(policies)
            } else if policy_is_sound(raw.last()) {
                Some(policies.push(access_policy_of(raw.last(), table)))
            } else {
                None
            },
            None => None,
        }
    }
}

/// Once a prefix holds an unsound enabled policy, the whole does.
pub proof fn lemma_policies_fail_on(raw: Seq<Policy>, table: Seq<char>, k: int)
    requires
        0 <= k <= raw.len(),
    ensures
        enabled_policies(raw.take(k), table) is None ==> enabled_policies(raw, table) is None,
    decreases raw.len() - k,
{
    if k < raw.len() {
        assert(raw.take(k + 1).drop_last() =~= raw.take(k));
        lemma_policies_fail_on(raw, table, k + 1);
    } else {
        assert(raw.take(k) =~= raw);
    }
}

/// Turns the store's policies into the enabled policies of `table`.
pub fn collect_policies(raw: &Vec<Policy>, table: &str) -> (r: Result<Vec<AccessPolicy>, SchemaError>)
    ensures
        r is Ok <==> enabled_policies(raw@, table@) is Some,
        r matches Ok(policies) ==> {
            &&& crate::policy::models(policies@) == enabled_policies(raw@, table@)->0
            &&& policies_in_force(crate::policy::models(policies@), table@)
        },
        r matches Err(e) ==> e == SchemaError::CatalogError,
{
    let mut policies: Vec<AccessPolicy> = Vec::new();
    let n: usize = raw.len();
    let mut i: usize = 0;
    assert(raw@.take(0) =~= Seq::<Policy>::empty());
    while i < n
        invariant
            n == raw@.len(),
            i <= n,
            enabled_policies(raw@.take(i as int), table@) == Some(
                crate::policy::models(policies@),
            ),
            policies_in_force(crate::policy::models(policies@), table@),
        decreases n - i,
    {
        proof {
            assert(raw@.take(i + 1).drop_last() =~= raw@.take(i as int));
            assert(raw@.take(i + 1).last() == raw@[i as int]);
            lemma_policies_fail_on(raw@, table@, i + 1);
        }
        if raw[i].is_enabled != 0 {
            match raw[i].to_access_policy(table) {
                Ok(p) => {
                    proof {
                        policies@.lemma_push_map_commute(|p: AccessPolicy| p@, p);
                    }
                    let ghost shown = crate::policy::models(policies@);
                    let ghost model = p@;
                    policies.push(p);
                    assert(crate::policy::models(policies@) =~= shown.push(model));
                },
                Err(_) => { return Err(SchemaError::CatalogError); },
            }
        }
        i += 1;
    }
    assert(raw@.take(n as int) =~= raw@);
    Ok(policies)
}

// ---------------------------------------------------------------------
// Tables
// ---------------------------------------------------------------------

/// What `describe` makes of the catalog's answer.
///
/// No row is no table. A row without a schema, with a column that is not
/// sound, with two columns at one position or with an enabled policy that is
/// not sound is no catalog's answer.
pub open spec fn described(found: Option<TableOutput>) -> Result<TableModel, SchemaError> {
    match found {
        None => Err(SchemaError::NotFound),
        Some(row) => {
            let t = row.table_details;
            if t.schema is Some && arranged(t.columns@) is Some && enabled_policies(
                t.policies@,
                t.name@,
            ) is Some {
                Ok(
                    TableModel {
                        name: t.name@,
                        schema: t.schema->0@,
                        origin_sql: opt_text(t.sql),
                        columns: arranged(t.columns@)->0,
                        policies: enabled_policies(t.policies@, t.name@)->0,
                    },
                )
            } else {
                Err(SchemaError::CatalogError)
            }
        },
    }
}

/// The model of a result of `describe`.
pub open spec fn description_model(r: Result<TableDescriptor, SchemaError>) -> Result<
    TableModel,
    SchemaError,
> {
    match r {
        Ok(t) => Ok(t@),
        Err(e) => Err(e),
    }
}

/// Describes a table from the row that the catalog returned for its name, if
/// it returned one.
pub fn describe(found: &Option<TableOutput>) -> (r: Result<TableDescriptor, SchemaError>)
    ensures
        description_model(r) == described(*found),
        r matches Ok(t) ==> well_formed(t@),
{
    let details = match found {
        Some(row) => &row.table_details,
        None => { return Err(SchemaError::NotFound); },
    };
    let schema = match &details.schema {
        Some(s) => s.clone(),
        None => { return Err(SchemaError::CatalogError); },
    };
    let columns = match arrange_columns(&details.columns) {
        Ok(columns) => columns,
        Err(_) => { return Err(SchemaError::CatalogError); },
    };
    let policies = match collect_policies(&details.policies, details.name.as_str()) {
        Ok(policies) => policies,
        Err(_) => { return Err(SchemaError::CatalogError); },
    };
    Ok(
        TableDescriptor {
            name: details.name.clone(),
            schema,
            origin_sql: copy_opt(&details.sql),
            columns,
            policies,
        },
    )
}

} // verus!
