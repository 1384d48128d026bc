//! Row-level access policies and the predicate they merge into.
//!
//! A policy belongs to one table and one operation (or to all of them), is
//! permissive or restrictive, and carries a `using` expression, a `check`
//! expression or both. The expressions are opaque boolean SQL fragments: they
//! are never parsed, only bracketed and joined.

use vstd::prelude::*;
use crate::text::{group, group_terms, join_paren, opt_text, paren, same_text, texts};

verus! {

/// What a statement does to a table.
#[derive(Clone, Copy, Debug, PartialEq, Eq, Structural)]
pub enum Operation {
    Select,
    Update,
    Insert,
    Delete,
}

/// The operations that a policy covers.
#[derive(Clone, Copy, Debug, PartialEq, Eq, Structural)]
pub enum PolicyScope {
    Select,
    Update,
    Insert,
    Delete,
    All,
}

/// Permissive policies grant access and are joined by OR; restrictive ones
/// narrow it and are joined by AND.
#[derive(Clone, Copy, Debug, PartialEq, Eq, Structural)]
pub enum PolicyKind {
    Permissive,
    Restrictive,
}

/// The two expressions of a policy: `Using` selects among existing rows,
/// `Check` constrains the rows that a write proposes.
#[derive(Clone, Copy, Debug, PartialEq, Eq, Structural)]
pub enum Clause {
    Using,
    Check,
}

/// A named policy of one table.
#[derive(Clone, Debug)]
pub struct AccessPolicy {
    pub id: i64,
    pub name: String,
    pub description: Option<String>,
    pub is_enabled: bool,
    pub table_name: String,
    pub operation: PolicyScope,
    pub kind: PolicyKind,
    pub using_expr: Option<String>,
    pub check_expr: Option<String>,
}

/// A policy as a mathematical value.
pub struct PolicyModel {
    pub id: i64,
    pub name: Seq<char>,
    pub description: Option<Seq<char>>,
    pub enabled: bool,
    pub table: Seq<char>,
    pub scope: PolicyScope,
    pub kind: PolicyKind,
    pub using_expr: Option<Seq<char>>,
    pub check_expr: Option<Seq<char>>,
}

impl View for AccessPolicy {
    type V = PolicyModel;

    open spec fn view(&self) -> PolicyModel {
        PolicyModel {
            id: self.id,
            name: self.name@,
            description: opt_text(self.description),
            enabled: self.is_enabled,
            table: self.table_name@,
            scope: self.operation,
            kind: self.kind,
            using_expr: opt_text(self.using_expr),
            check_expr: opt_text(self.check_expr),
        }
    }
}

impl AccessPolicy {
    /// A policy carries at least one of its two expressions.
    pub open spec fn well_formed(&self) -> bool {
        self.using_expr is Some || self.check_expr is Some
    }

    /// Tells whether the policy carries at least one expression.
    pub fn is_well_formed(&self) -> (ok: bool)
        ensures
            ok == self.well_formed(),
    {
        self.using_expr.is_some() || self.check_expr.is_some()
    }
}

/// The models of a list of policies.
pub open spec fn models(policies: Seq<AccessPolicy>) -> Seq<PolicyModel> {
    policies.map_values(|p: AccessPolicy| p@)
}

/// The result of a merge.
#[derive(Clone, Debug)]
pub enum Gate {
    /// No predicate: every row passes.
    Open,
    /// No row passes.
    Closed,
    /// The rows that satisfy the expression pass.
    Where(String),
}

/// The model of a [`Gate`].
pub enum GateModel {
    Open,
    Closed,
    Where(Seq<char>),
}

impl View for Gate {
    type V = GateModel;

    open spec fn view(&self) -> GateModel {
        match self {
            Gate::Open => GateModel::Open,
            Gate::Closed => GateModel::Closed,
            Gate::Where(e) => GateModel::Where(e@),
        }
    }
}

/// A scope covers an operation literally or through `All`.
pub open spec fn covers(scope: PolicyScope, op: Operation) -> bool {
    match scope {
        PolicyScope::All => true,
        PolicyScope::Select => op == Operation::Select,
        PolicyScope::Update => op == Operation::Update,
        PolicyScope::Insert => op == Operation::Insert,
        PolicyScope::Delete => op == Operation::Delete,
    }
}

/// An enabled policy of `table`.
pub open spec fn in_force(p: PolicyModel, table: Seq<char>) -> bool {
    p.enabled && p.table == table
}

/// An enabled policy of `table` whose scope covers `op`.
pub open spec fn applies(p: PolicyModel, table: Seq<char>, op: Operation) -> bool {
    in_force(p, table) && covers(p.scope, op)
}

/// The expression that a policy carries for a clause.
pub open spec fn clause_expr(p: PolicyModel, clause: Clause) -> Option<Seq<char>> {
    match clause {
        Clause::Using => p.using_expr,
        Clause::Check => p.check_expr,
    }
}

/// The term that `p` adds to the merge of `kind` policies, if any.
pub open spec fn term_of(table: Seq<char>, op: Operation, kind: PolicyKind, clause: Clause)
    -> spec_fn(PolicyModel) -> Option<Seq<char>> {
    |p: PolicyModel|
        if applies(p, table, op) && p.kind == kind {
            clause_expr(p, clause)
        } else {
            None
        }
}

/// The expressions of the applicable policies of one kind, in store order.
pub open spec fn terms(
    ps: Seq<PolicyModel>,
    table: Seq<char>,
    op: Operation,
    kind: PolicyKind,
    clause: Clause,
) -> Seq<Seq<char>> {
    ps.filter_map(term_of(table, op, kind, clause))
}

/// Some policy of the table is enabled.
pub open spec fn any_in_force(ps: Seq<PolicyModel>, table: Seq<char>) -> bool {
    exists|i: int| 0 <= i < ps.len() && in_force(#[trigger] ps[i], table)
}

/// Some permissive policy applies to the operation.
pub open spec fn any_permissive(ps: Seq<PolicyModel>, table: Seq<char>, op: Operation) -> bool {
    exists|i: int|
        0 <= i < ps.len() && applies(#[trigger] ps[i], table, op) && ps[i].kind
            == PolicyKind::Permissive
}

/// The conjuncts of the merged predicate: the disjunction of the permissive
/// terms, if there is any, and then each restrictive term.
pub open spec fn conjuncts(permissive: Seq<Seq<char>>, restrictive: Seq<Seq<char>>) -> Seq<
    Seq<char>,
> {
    if permissive.len() > 0 {
        seq![group(permissive, " OR "@)] + restrictive
    } else {
        restrictive
    }
}

/// The merge rule.
///
/// A table without an enabled policy is unrestricted. A table with enabled
/// policies of which no permissive one applies to the operation is closed.
/// Otherwise the permissive expressions of the clause are joined by OR, and
/// the restrictive ones are joined to that by AND; where no applicable policy
/// carries an expression for the clause, the clause is unrestricted.
pub open spec fn merged(ps: Seq<PolicyModel>, table: Seq<char>, op: Operation, clause: Clause)
    -> GateModel {
    if !any_in_force(ps, table) {
        GateModel::Open
    } else if !any_permissive(ps, table, op) {
        GateModel::Closed
    } else {
        let all = conjuncts(
            terms(ps, table, op, PolicyKind::Permissive, clause),
            terms(ps, table, op, PolicyKind::Restrictive, clause),
        );
        if all.len() == 0 {
            GateModel::Open
        } else {
            GateModel::Where(group(all, " AND "@))
        }
    }
}

/// Tells whether a scope covers an operation.
pub fn scope_covers(scope: PolicyScope, op: Operation) -> (r: bool)
    ensures
        r == covers(scope, op),
{
    match scope {
        PolicyScope::All => true,
        PolicyScope::Select => op == Operation::Select,
        PolicyScope::Update => op == Operation::Update,
        PolicyScope::Insert => op == Operation::Insert,
        PolicyScope::Delete => op == Operation::Delete,
    }
}

/// The policies of the store that are enabled, belong to `table_name` and
/// cover `op`, in store order.
pub fn policies_for<'a>(store: &'a Vec<AccessPolicy>, table_name: &str, op: Operation) -> (found:
    Vec<&'a AccessPolicy>)
    ensures
        found@.map_values(|p: &AccessPolicy| *p) == store@.filter(
            |p: AccessPolicy| applies(p@, table_name@, op),
        ),
{
    let ghost pred = |p: AccessPolicy| applies(p@, table_name@, op);
    let ghost unref = |p: &AccessPolicy| *p;
    let mut found: Vec<&'a AccessPolicy> = Vec::new();
    let n: usize = store.len();
    let mut i: usize = 0;
    while i < n
        invariant
            n == store@.len(),
            i <= n,
            pred == |p: AccessPolicy| applies(p@, table_name@, op),
            unref == |p: &AccessPolicy| *p,
            found@.map_values(unref) == store@.take(i as int).filter(pred),
        decreases n - i,
    {
        let p = &store[i];
        proof {
            assert(store@.take(i + 1) =~= store@.take(i as int).push(store@[i as int]));
            store@.take(i as int).lemma_filter_push(store@[i as int], pred);
        }
        if p.is_enabled && same_text(p.table_name.as_str(), table_name) && scope_covers(
            p.operation,
            op,
        ) {
            proof {
                found@.lemma_push_map_commute(unref, p);
            }
            found.push(p);
            assert(found@.map_values(unref) =~= store@.take(i as int).filter(pred).push(*p));
        }
        assert(found@.map_values(unref) =~= store@.take(i + 1).filter(pred));
        i += 1;
    }
    assert(store@.take(n as int) =~= store@);
    found
}

/// Merges the policies of a table into the predicate of one clause of one
/// operation.
pub fn merge_policies(policies: &Vec<AccessPolicy>, table: &str, op: Operation, clause: Clause)
    -> (gate: Gate)
    ensures
        gate@ == merged(models(policies@), table@, op, clause),
{
    let ghost ps = models(policies@);
    let ghost pick_p = term_of(table@, op, PolicyKind::Permissive, clause);
    let ghost pick_r = term_of(table@, op, PolicyKind::Restrictive, clause);
    let mut permissive: Vec<String> = Vec::new();
    let mut restrictive: Vec<String> = Vec::new();
    let mut in_force_seen = false;
    let mut permissive_seen = false;
    let n: usize = policies.len();
    let mut i: usize = 0;
    while i < n
        invariant
            n == policies@.len(),
            i <= n,
            ps == models(policies@),
            pick_p == term_of(table@, op, PolicyKind::Permissive, clause),
            pick_r == term_of(table@, op, PolicyKind::Restrictive, clause),
            in_force_seen == any_in_force(ps.take(i as int), table@),
            permissive_seen == any_permissive(ps.take(i as int), table@, op),
            texts(permissive@) == ps.take(i as int).filter_map(pick_p),
            texts(restrictive@) == ps.take(i as int).filter_map(pick_r),
        decreases n - i,
    {
        let p = &policies[i];
        let ghost head = ps.take(i as int);
        let ghost next = ps.take(i + 1);
        proof {
            ps.lemma_filter_map_take_succ(pick_p, i as int);
            ps.lemma_filter_map_take_succ(pick_r, i as int);
            assert(next[i as int] == p@);
            assert(forall|j: int| 0 <= j < i ==> next[j] == head[j]);
        }
        let here = p.is_enabled && same_text(p.table_name.as_str(), table);
        let hit = here && scope_covers(p.operation, op);
        let ghost seen_before = in_force_seen;
        let ghost perm_before = permissive_seen;
        if here {
            in_force_seen = true;
        }
        if hit {
            let expr = match clause {
                Clause::Using => &p.using_expr,
                Clause::Check => &p.check_expr,
            };
            match p.kind {
                PolicyKind::Permissive => {
                    permissive_seen = true;
                    if let Some(e) = expr {
                        proof {
                            permissive@.lemma_push_map_commute(|s: String| s@, *e);
                        }
                        permissive.push(e.clone());
                    }
                },
                PolicyKind::Restrictive => {
                    if let Some(e) = expr {
                        proof {
                            restrictive@.lemma_push_map_commute(|s: String| s@, *e);
                        }
                        restrictive.push(e.clone());
                    }
                },
            }
        }
        proof {
            assert(texts(permissive@) =~= next.filter_map(pick_p));
            assert(texts(restrictive@) =~= next.filter_map(pick_r));
            if seen_before {
                let w = choose|j: int| 0 <= j < head.len() && in_force(#[trigger] head[j], table@);
                assert(in_force(next[w], table@));
            }
            if here {
                assert(in_force(next[i as int], table@));
            }
            if perm_before {
                let w = choose|j: int|
                    0 <= j < head.len() && applies(#[trigger] head[j], table@, op) && head[j].kind
                        == PolicyKind::Permissive;
                assert(applies(next[w], table@, op));
            }
            if hit && p.kind == PolicyKind::Permissive {
                assert(applies(next[i as int], table@, op));
            }
        }
        i += 1;
    }
    proof {
        assert(ps.take(n as int) =~= ps);
    }
    if !in_force_seen {
        return Gate::Open;
    }
    if !permissive_seen {
        return Gate::Closed;
    }
    let mut all: Vec<String> = Vec::new();
    if permissive.len() > 0 {
        let any = group_terms(&permissive, " OR ");
        all.push(any);
    }
    let m: usize = restrictive.len();
    let mut k: usize = 0;
    let ghost lead = all@;
    while k < m
        invariant
            m == restrictive@.len(),
            k <= m,
            all@ == lead + restrictive@.take(k as int),
        decreases m - k,
    {
        all.push(restrictive[k].clone());
        assert(all@ =~= lead + restrictive@.take(k + 1));
        k += 1;
    }
    proof {
        assert(restrictive@.take(m as int) =~= restrictive@);
        assert(texts(all@) =~= conjuncts(texts(permissive@), texts(restrictive@)));
    }
    if all.len() == 0 {
        Gate::Open
    } else {
        Gate::Where(group_terms(&all, " AND "))
    }
}

/// A table without an enabled policy is unrestricted: whatever the operation
/// and the clause, the merge yields no predicate.
pub proof fn law_no_policy_no_predicate(
    ps: Seq<PolicyModel>,
    table: Seq<char>,
    op: Operation,
    clause: Clause,
)
    requires
        !any_in_force(ps, table),
    ensures
        merged(ps, table, op, clause) == GateModel::Open,
{
}

/// A table whose enabled policies cover other operations only is closed for
/// this one.
pub proof fn law_default_deny(ps: Seq<PolicyModel>, table: Seq<char>, op: Operation, clause: Clause)
    requires
        any_in_force(ps, table),
        !any_permissive(ps, table, op),
    ensures
        merged(ps, table, op, clause) == GateModel::Closed,
{
}

/// With a single permissive policy the merged predicate is that policy's
/// expression, character for character: nothing is joined to it.
pub proof fn law_single_permissive(p: PolicyModel, table: Seq<char>, op: Operation, clause: Clause)
    requires
        applies(p, table, op),
        p.kind == PolicyKind::Permissive,
    ensures
        merged(seq![p], table, op, clause) == match clause_expr(p, clause) {
            Some(e) => GateModel::Where(e),
            None => GateModel::Open,
        },
{
    let ps = seq![p];
    let pick_p = term_of(table, op, PolicyKind::Permissive, clause);
    let pick_r = term_of(table, op, PolicyKind::Restrictive, clause);
    assert(in_force(ps[0], table));
    assert(applies(ps[0], table, op));
    assert(ps.take(0).filter_map(pick_p) =~= Seq::empty());
    assert(ps.take(0).filter_map(pick_r) =~= Seq::empty());
    ps.lemma_filter_map_take_succ(pick_p, 0);
    ps.lemma_filter_map_take_succ(pick_r, 0);
    assert(ps.take(1) =~= ps);
    match clause_expr(p, clause) {
        Some(e) => {
            assert(ps.filter_map(pick_p) =~= seq![e]);
            assert(ps.filter_map(pick_r) =~= Seq::empty());
            assert(conjuncts(seq![e], Seq::empty()) =~= seq![e]);
        },
        None => {
            assert(ps.filter_map(pick_p) =~= Seq::empty());
            assert(ps.filter_map(pick_r) =~= Seq::empty());
        },
    }
}

/// One permissive and one restrictive policy merge into `(A) AND (R)`.
pub proof fn law_permissive_and_restrictive(
    granting: PolicyModel,
    narrowing: PolicyModel,
    table: Seq<char>,
    op: Operation,
    clause: Clause,
)
    requires
        applies(granting, table, op),
        applies(narrowing, table, op),
        granting.kind == PolicyKind::Permissive,
        narrowing.kind == PolicyKind::Restrictive,
        clause_expr(granting, clause) is Some,
        clause_expr(narrowing, clause) is Some,
    ensures
        merged(seq![granting, narrowing], table, op, clause) == GateModel::Where(
            paren(clause_expr(granting, clause)->0) + " AND "@ + paren(clause_expr(narrowing, clause)->0),
        ),
{
    let ps = seq![granting, narrowing];
    let a = clause_expr(granting, clause)->0;
    let b = clause_expr(narrowing, clause)->0;
    let pick_p = term_of(table, op, PolicyKind::Permissive, clause);
    let pick_r = term_of(table, op, PolicyKind::Restrictive, clause);
    assert(in_force(ps[0], table));
    assert(applies(ps[0], table, op));
    assert(ps.take(0).filter_map(pick_p) =~= Seq::empty());
    assert(ps.take(0).filter_map(pick_r) =~= Seq::empty());
    ps.lemma_filter_map_take_succ(pick_p, 0);
    ps.lemma_filter_map_take_succ(pick_r, 0);
    ps.lemma_filter_map_take_succ(pick_p, 1);
    ps.lemma_filter_map_take_succ(pick_r, 1);
    assert(ps.take(2) =~= ps);
    assert(ps.filter_map(pick_p) =~= seq![a]);
    assert(ps.filter_map(pick_r) =~= seq![b]);
    let all = conjuncts(seq![a], seq![b]);
    assert(all =~= seq![a, b]);
    assert(all.drop_last() =~= seq![a]);
    assert(join_paren(all.drop_last(), " AND "@) == paren(a));
    assert(join_paren(all, " AND "@) == paren(a) + " AND "@ + paren(b));
}

/// A second permissive policy turns `(A) AND (R)` into
/// `((A) OR (B)) AND (R)`.
pub proof fn law_two_permissive_and_restrictive(
    granting: PolicyModel,
    also_granting: PolicyModel,
    narrowing: PolicyModel,
    table: Seq<char>,
    op: Operation,
    clause: Clause,
)
    requires
        applies(granting, table, op),
        applies(also_granting, table, op),
        applies(narrowing, table, op),
        granting.kind == PolicyKind::Permissive,
        also_granting.kind == PolicyKind::Permissive,
        narrowing.kind == PolicyKind::Restrictive,
        clause_expr(granting, clause) is Some,
        clause_expr(also_granting, clause) is Some,
        clause_expr(narrowing, clause) is Some,
    ensures
        merged(seq![granting, also_granting, narrowing], table, op, clause) == GateModel::Where(
            paren(
                paren(clause_expr(granting, clause)->0) + " OR "@ + paren(clause_expr(also_granting, clause)->0),
            ) + " AND "@ + paren(clause_expr(narrowing, clause)->0),
        ),
{
    let ps = seq![granting, also_granting, narrowing];
    let a = clause_expr(granting, clause)->0;
    let b = clause_expr(also_granting, clause)->0;
    let c = clause_expr(narrowing, clause)->0;
    let pick_p = term_of(table, op, PolicyKind::Permissive, clause);
    let pick_r = term_of(table, op, PolicyKind::Restrictive, clause);
    assert(in_force(ps[0], table));
    assert(applies(ps[0], table, op));
    assert(ps.take(0).filter_map(pick_p) =~= Seq::empty());
    assert(ps.take(0).filter_map(pick_r) =~= Seq::empty());
    ps.lemma_filter_map_take_succ(pick_p, 0);
    ps.lemma_filter_map_take_succ(pick_r, 0);
    ps.lemma_filter_map_take_succ(pick_p, 1);
    ps.lemma_filter_map_take_succ(pick_r, 1);
    ps.lemma_filter_map_take_succ(pick_p, 2);
    ps.lemma_filter_map_take_succ(pick_r, 2);
    assert(ps.take(3) =~= ps);
    assert(ps.filter_map(pick_p) =~= seq![a, b]);
    assert(ps.filter_map(pick_r) =~= seq![c]);
    let perm = seq![a, b];
    assert(perm.drop_last() =~= seq![a]);
    assert(join_paren(perm.drop_last(), " OR "@) == paren(a));
    let any = paren(a) + " OR "@ + paren(b);
    assert(group(perm, " OR "@) == any);
    let all = conjuncts(perm, seq![c]);
    assert(all =~= seq![any, c]);
    assert(all.drop_last() =~= seq![any]);
    assert(join_paren(all.drop_last(), " AND "@) == paren(any));
    assert(join_paren(all, " AND "@) == paren(any) + " AND "@ + paren(c));
}

/// The policies in force, in store order.
pub open spec fn in_force_only(ps: Seq<PolicyModel>, table: Seq<char>) -> Seq<PolicyModel> {
    ps.filter(|p: PolicyModel| in_force(p, table))
}

/// Disabled policies and policies of other tables count for nothing: the
/// merge of a store is the merge of its policies in force.
pub proof fn law_only_policies_in_force_count(
    ps: Seq<PolicyModel>,
    table: Seq<char>,
    op: Operation,
    clause: Clause,
)
    ensures
        merged(ps, table, op, clause) == merged(in_force_only(ps, table), table, op, clause),
{
    lemma_in_force_only(ps, table, op, PolicyKind::Permissive, clause);
    lemma_in_force_only(ps, table, op, PolicyKind::Restrictive, clause);
}

/// What the merge reads of a store, it reads of its policies in force.
pub proof fn lemma_in_force_only(
    ps: Seq<PolicyModel>,
    table: Seq<char>,
    op: Operation,
    kind: PolicyKind,
    clause: Clause,
)
    ensures
        any_in_force(in_force_only(ps, table), table) == any_in_force(ps, table),
        any_permissive(in_force_only(ps, table), table, op) == any_permissive(ps, table, op),
        terms(in_force_only(ps, table), table, op, kind, clause) == terms(
            ps,
            table,
            op,
            kind,
            clause,
        ),
    decreases ps.len(),
{
    let keep = |p: PolicyModel| in_force(p, table);
    let pick = term_of(table, op, kind, clause);
    let kept = ps.filter(keep);
    if ps.len() == 0 {
        reveal(Seq::filter);
        assert(kept =~= ps);
    } else {
        let front = ps.drop_last();
        let last = ps.last();
        let kept_front = front.filter(keep);
        lemma_in_force_only(front, table, op, kind, clause);
        assert(ps =~= front.push(last));
        front.lemma_filter_push(last, keep);
        assert(ps.take(ps.len() - 1) =~= front);
        assert(ps.take(ps.len() as int) =~= ps);
        ps.lemma_filter_map_take_succ(pick, ps.len() - 1);
        if keep(last) {
            let grown = kept_front.push(last);
            assert(kept == grown);
            assert(grown.take(grown.len() - 1) =~= kept_front);
            assert(grown.take(grown.len() as int) =~= grown);
            grown.lemma_filter_map_take_succ(pick, grown.len() - 1);
            assert(in_force(grown[grown.len() - 1], table));
            assert(in_force(ps[ps.len() - 1], table));
            if any_permissive(ps, table, op) {
                let w = choose|i: int|
                    0 <= i < ps.len() && applies(#[trigger] ps[i], table, op) && ps[i].kind
                        == PolicyKind::Permissive;
                if w < front.len() {
                    assert(front[w] == ps[w]);
                    let v = choose|i: int|
                        0 <= i < kept_front.len() && applies(#[trigger] kept_front[i], table, op)
                            && kept_front[i].kind == PolicyKind::Permissive;
                    assert(grown[v] == kept_front[v]);
                } else {
                    assert(applies(grown[grown.len() - 1], table, op));
                }
            }
            if any_permissive(grown, table, op) {
                let v = choose|i: int|
                    0 <= i < grown.len() && applies(#[trigger] grown[i], table, op) && grown[i].kind
                        == PolicyKind::Permissive;
                if v < kept_front.len() {
                    assert(kept_front[v] == grown[v]);
                    let w = choose|i: int|
                        0 <= i < front.len() && applies(#[trigger] front[i], table, op)
                            && front[i].kind == PolicyKind::Permissive;
                    assert(ps[w] == front[w]);
                } else {
                    assert(applies(ps[ps.len() - 1], table, op));
                }
            }
        } else {
            assert(kept == kept_front);
            if any_in_force(ps, table) {
                let w = choose|i: int| 0 <= i < ps.len() && in_force(#[trigger] ps[i], table);
                assert(front[w] == ps[w]);
            }
            if any_in_force(front, table) {
                let w = choose|i: int| 0 <= i < front.len() && in_force(#[trigger] front[i], table);
                assert(ps[w] == front[w]);
            }
            if any_permissive(ps, table, op) {
                let w = choose|i: int|
                    0 <= i < ps.len() && applies(#[trigger] ps[i], table, op) && ps[i].kind
                        == PolicyKind::Permissive;
                assert(front[w] == ps[w]);
            }
            if any_permissive(front, table, op) {
                let w = choose|i: int|
                    0 <= i < front.len() && applies(#[trigger] front[i], table, op)
                        && front[i].kind == PolicyKind::Permissive;
                assert(ps[w] == front[w]);
            }
        }
    }
}

/// A policy that does not apply to the operation adds nothing to the merge
/// of a table that has a policy in force already. (Where it is the first in
/// force it does decide: it closes the table that was open.)
pub proof fn law_policy_for_another_operation_adds_nothing(
    ps: Seq<PolicyModel>,
    other: PolicyModel,
    table: Seq<char>,
    op: Operation,
    clause: Clause,
)
    requires
        any_in_force(ps, table),
        !applies(other, table, op),
    ensures
        merged(ps.push(other), table, op, clause) == merged(ps, table, op, clause),
{
    let more = ps.push(other);
    let pick_p = term_of(table, op, PolicyKind::Permissive, clause);
    let pick_r = term_of(table, op, PolicyKind::Restrictive, clause);
    assert(more.take(ps.len() as int) =~= ps);
    assert(more.take(more.len() as int) =~= more);
    more.lemma_filter_map_take_succ(pick_p, ps.len() as int);
    more.lemma_filter_map_take_succ(pick_r, ps.len() as int);
    assert(more.filter_map(pick_p) =~= ps.filter_map(pick_p));
    assert(more.filter_map(pick_r) =~= ps.filter_map(pick_r));
    let w = choose|i: int| 0 <= i < ps.len() && in_force(#[trigger] ps[i], table);
    assert(more[w] == ps[w]);
    if any_permissive(ps, table, op) {
        let v = choose|i: int|
            0 <= i < ps.len() && applies(#[trigger] ps[i], table, op) && ps[i].kind
                == PolicyKind::Permissive;
        assert(more[v] == ps[v]);
    }
    if any_permissive(more, table, op) {
        let v = choose|i: int|
            0 <= i < more.len() && applies(#[trigger] more[i], table, op) && more[i].kind
                == PolicyKind::Permissive;
        assert(v < ps.len());
        assert(ps[v] == more[v]);
    }
}

} // verus!
