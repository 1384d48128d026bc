//! An ordered registry of handlers.
//!
//! A hook keeps its handlers by priority, lowest first; handlers of equal
//! priority stay in the order in which they were bound. The registry never
//! calls a handler: whoever triggers the hook walks `handlers()` in order.

use vstd::prelude::*;
use crate::fresh::{generate_id, ID_LENGTH};
use crate::text::same_text;

verus! {

/// A callback with the identifier it is known by and its priority.
pub struct Handler<F> {
    pub func: F,
    pub id: Option<String>,
    pub priority: Option<i16>,
}

/// The handlers bound to one event, by priority.
pub struct Hook<F> {
    handlers: Vec<Handler<F>>,
}

/// Why a hook did not do what was asked.
#[derive(Debug)]
pub enum HookError {
    /// No handler is bound under the identifier.
    NotFound(String),
}

impl HookError {
    /// The text of the error.
    pub fn message(&self) -> (text: String)
        ensures
            text@ == match self {
                HookError::NotFound(id) => "Handler with id "@ + id@ + " not found"@,
            },
    {
        match self {
            HookError::NotFound(id) => {
                let mut text = "Handler with id ".to_owned();
                text.append(id.as_str());
                text.append(" not found");
                text
            },
        }
    }
}

impl<F> Handler<F> {
    /// The rank that orders the handler: its priority, or 0 where it has none.
    pub open spec fn rank(&self) -> int {
        match self.priority {
            Some(p) => p as int,
            None => 0,
        }
    }

    /// This handler under another identifier.
    pub open spec fn with_id(self, id: String) -> Handler<F> {
        Handler { func: self.func, id: Some(id), priority: self.priority }
    }

    /// The handler is bound under `id`.
    pub open spec fn is_bound_as(&self, id: Seq<char>) -> bool {
        self.id matches Some(s) && s@ == id
    }
}

/// Ranks never fall from one handler to the next.
pub open spec fn by_rank<F>(hs: Seq<Handler<F>>) -> bool {
    forall|i: int, j: int| 0 <= i <= j < hs.len() ==> hs[i].rank() <= hs[j].rank()
}

/// Where a handler of rank `rank` goes: behind every handler whose rank is
/// not higher.
pub open spec fn slot<F>(hs: Seq<Handler<F>>, rank: int) -> int
    decreases hs.len(),
{
    if hs.len() == 0 {
        0
    } else if hs.last().rank() <= rank {
        hs.len() as int
    } else {
        slot(hs.drop_last(), rank)
    }
}

/// In a list in rank order, `slot` parts the handlers of rank up to `rank`
/// from those above it.
pub proof fn lemma_slot_parts<F>(hs: Seq<Handler<F>>, rank: int)
    requires
        by_rank(hs),
    ensures
        0 <= slot(hs, rank) <= hs.len(),
        forall|i: int| 0 <= i < slot(hs, rank) ==> (#[trigger] hs[i]).rank() <= rank,
        forall|i: int| slot(hs, rank) <= i < hs.len() ==> (#[trigger] hs[i]).rank() > rank,
    decreases hs.len(),
{
    if hs.len() > 0 && hs.last().rank() > rank {
        let front = hs.drop_last();
        assert(by_rank(front)) by {
            assert forall|i: int, j: int| 0 <= i <= j < front.len() implies front[i].rank()
                <= front[j].rank() by {
                assert(front[i] == hs[i] && front[j] == hs[j]);
            }
        }
        lemma_slot_parts(front, rank);
        assert forall|i: int| 0 <= i < slot(hs, rank) implies (#[trigger] hs[i]).rank() <= rank by {
            assert(hs[i] == front[i]);
        }
        assert forall|i: int| slot(hs, rank) <= i < hs.len() implies (#[trigger] hs[i]).rank()
            > rank by {
            if i < front.len() {
                assert(hs[i] == front[i]);
            }
        }
    } else if hs.len() > 0 {
        assert forall|i: int| 0 <= i < hs.len() implies (#[trigger] hs[i]).rank() <= rank by {
            assert(hs[i].rank() <= hs[hs.len() - 1].rank());
        }
    }
}

impl<F> Hook<F> {
    #[verifier::type_invariant]
    spec fn kept_by_rank(self) -> bool {
        by_rank(self.handlers@)
    }

    /// The handlers in the order in which they are to be called.
    pub closed spec fn bound(&self) -> Seq<Handler<F>> {
        self.handlers@
    }

    /// A hook without handlers.
    pub fn new() -> (hook: Self)
        ensures
            hook.bound() == Seq::<Handler<F>>::empty(),
    {
        Hook { handlers: Vec::new() }
    }

    /// Binds a handler and returns the identifier it is bound under: its own,
    /// where it has one, else a fresh one.
    ///
    /// The handler goes behind every bound handler whose rank is not higher
    /// than its own, so the hook stays in rank order and handlers of equal
    /// rank stay in the order of their binding.
    pub fn bind(&mut self, handler: Handler<F>) -> (id: String)
        ensures
            handler.id matches Some(own) ==> id == own,
            handler.id is None ==> id@.len() == ID_LENGTH,
            final(self).bound() == old(self).bound().insert(
                slot(old(self).bound(), handler.rank()),
                handler.with_id(id),
            ),
            by_rank(final(self).bound()),
    {
        proof {
            use_type_invariant(&*self);
        }
        let Handler { func, id, priority } = handler;
        let id = match id {
            Some(own) => own,
            None => generate_id(),
        };
        let rank: i16 = match priority {
            Some(p) => p,
            None => 0,
        };
        let mut hs: Vec<Handler<F>> = Vec::new();
        core::mem::swap(&mut self.handlers, &mut hs);
        let ghost before = hs@;
        let n: usize = hs.len();
        let mut at: usize = n;
        assert(hs@.take(n as int) =~= hs@);
        while at > 0 && Self::rank_of(&hs[at - 1]) > rank
            invariant
                at <= n,
                n == hs@.len(),
                hs@ == before,
                slot(hs@, rank as int) == slot(hs@.take(at as int), rank as int),
            decreases at,
        {
            assert(hs@.take(at as int).drop_last() =~= hs@.take(at - 1));
            at -= 1;
        }
        proof {
            assert(before.take(n as int) =~= before);
            if at > 0 {
                assert(before.take(at as int).last() == before[at - 1]);
            }
            assert(slot(before, rank as int) == at);
            lemma_slot_parts(before, rank as int);
        }
        let stored = Handler { func, id: Some(id.clone()), priority };
        assert(stored == handler.with_id(id));
        hs.insert(at, stored);
        proof {
            lemma_insert_by_rank(before, at as int, stored);
        }
        self.handlers = hs;
        id
    }

    /// Binds a callback without an identifier or a priority of its own.
    pub fn bind_fn(&mut self, callback: F) -> (id: String)
        ensures
            id@.len() == ID_LENGTH,
            final(self).bound() == old(self).bound().insert(
                slot(old(self).bound(), 0),
                Handler { func: callback, id: Some(id), priority: None },
            ),
            by_rank(final(self).bound()),
    {
        self.bind(Handler { func: callback, id: None, priority: None })
    }

    /// Removes every handler bound under `id`. Fails, and leaves the hook as
    /// it was, where there is none.
    pub fn unbind(&mut self, id: String) -> (r: Result<(), HookError>)
        ensures
            final(self).bound() == old(self).bound().filter(
                |h: Handler<F>| !h.is_bound_as(id@),
            ),
            r is Ok <==> exists|i: int|
                0 <= i < old(self).bound().len() && (#[trigger] old(self).bound()[i]).is_bound_as(
                    id@,
                ),
            r matches Err(e) ==> e == HookError::NotFound(id),
            by_rank(final(self).bound()),
    {
        proof {
            use_type_invariant(&*self);
        }
        let ghost keep = |h: Handler<F>| !h.is_bound_as(id@);
        let ghost all = self.handlers@;
        let mut rest: Vec<Handler<F>> = Vec::new();
        core::mem::swap(&mut self.handlers, &mut rest);
        let total: usize = rest.len();
        let mut done: usize = 0;
        let mut i: usize = 0;
        while done < total
            invariant
                total == all.len(),
                done <= total,
                i <= rest@.len(),
                keep == |h: Handler<F>| !h.is_bound_as(id@),
                rest@ == all.take(done as int).filter(keep) + all.skip(done as int),
                i == all.take(done as int).filter(keep).len(),
            decreases total - done,
        {
            let ghost head = all.take(done as int).filter(keep);
            proof {
                assert(all.take(done + 1) =~= all.take(done as int).push(all[done as int]));
                all.take(done as int).lemma_filter_push(all[done as int], keep);
                assert(rest@[i as int] == all.skip(done as int)[0]);
                assert(all.skip(done as int).skip(1) =~= all.skip(done + 1));
            }
            let hit = match &rest[i].id {
                Some(s) => same_text(s.as_str(), id.as_str()),
                None => false,
            };
            if hit {
                rest.remove(i);
                assert(rest@ =~= head + all.skip(done + 1));
            } else {
                assert(rest@ =~= head.push(all[done as int]) + all.skip(done + 1));
                i += 1;
            }
            done += 1;
        }
        proof {
            assert(all.take(total as int) =~= all);
            assert(all.skip(total as int) =~= Seq::<Handler<F>>::empty());
            assert(rest@ =~= all.filter(keep));
            lemma_filter_by_rank(all, keep);
        }
        let removed = rest.len() < total;
        proof {
            lemma_filter_shrinks_iff(all, keep);
        }
        self.handlers = rest;
        if removed {
            Ok(())
        } else {
            Err(HookError::NotFound(id))
        }
    }

    /// The number of handlers.
    pub fn length(&self) -> (n: usize)
        ensures
            n == self.bound().len(),
    {
        self.handlers.len()
    }

    /// The handlers in the order in which they are to be called.
    pub fn handlers(&self) -> (hs: &Vec<Handler<F>>)
        ensures
            hs@ == self.bound(),
            by_rank(hs@),
    {
        proof {
            use_type_invariant(self);
        }
        &self.handlers
    }

    fn rank_of(h: &Handler<F>) -> (r: i16)
        ensures
            r == h.rank(),
    {
        match h.priority {
            Some(p) => p,
            None => 0,
        }
    }
}

/// A handler put at its slot leaves the list in rank order.
pub proof fn lemma_insert_by_rank<F>(hs: Seq<Handler<F>>, at: int, h: Handler<F>)
    requires
        by_rank(hs),
        0 <= at <= hs.len(),
        forall|i: int| 0 <= i < at ==> (#[trigger] hs[i]).rank() <= h.rank(),
        forall|i: int| at <= i < hs.len() ==> (#[trigger] hs[i]).rank() > h.rank(),
    ensures
        by_rank(hs.insert(at, h)),
{
    let after = hs.insert(at, h);
    assert forall|i: int, j: int| 0 <= i <= j < after.len() implies after[i].rank()
        <= after[j].rank() by {
        if i < at && j < at {
            assert(after[i] == hs[i] && after[j] == hs[j]);
        } else if i < at && j == at {
            assert(after[i] == hs[i]);
        } else if i < at && j > at {
            assert(after[i] == hs[i] && after[j] == hs[j - 1]);
        } else if i == at && j > at {
            assert(after[j] == hs[j - 1]);
        } else if i > at {
            assert(after[i] == hs[i - 1] && after[j] == hs[j - 1]);
        }
    }
}

/// What a filter keeps was there before, and stands in rank order if the
/// whole list did.
pub proof fn lemma_filter_by_rank<F>(hs: Seq<Handler<F>>, keep: spec_fn(Handler<F>) -> bool)
    requires
        by_rank(hs),
    ensures
        by_rank(hs.filter(keep)),
        forall|a: int|
            0 <= a < hs.filter(keep).len() ==> hs.contains(#[trigger] hs.filter(keep)[a]),
    decreases hs.len(),
{
    reveal(Seq::filter);
    if hs.len() > 0 {
        let front = hs.drop_last();
        assert(by_rank(front)) by {
            assert forall|i: int, j: int| 0 <= i <= j < front.len() implies front[i].rank()
                <= front[j].rank() by {
                assert(front[i] == hs[i] && front[j] == hs[j]);
            }
        }
        lemma_filter_by_rank(front, keep);
        let kept = front.filter(keep);
        let out = hs.filter(keep);
        assert forall|a: int| 0 <= a < out.len() implies hs.contains(#[trigger] out[a]) by {
            if a < kept.len() {
                assert(out[a] == kept[a]);
                assert(front.contains(kept[a]));
                let w = choose|k: int| 0 <= k < front.len() && front[k] == kept[a];
                assert(hs[w] == out[a]);
            } else {
                assert(out[a] == hs[hs.len() - 1]);
            }
        }
        assert forall|a: int, b: int| 0 <= a <= b < out.len() implies out[a].rank()
            <= out[b].rank() by {
            if b < kept.len() {
                assert(out[a] == kept[a] && out[b] == kept[b]);
            } else if a < kept.len() {
                assert(out[a] == kept[a]);
                assert(front.contains(kept[a]));
                let w = choose|k: int| 0 <= k < front.len() && front[k] == kept[a];
                assert(hs[w] == front[w]);
                assert(out[b] == hs[hs.len() - 1]);
                assert(hs[w].rank() <= hs[hs.len() - 1].rank());
            }
        }
    }
}

/// A filter drops something exactly where something fails its test.
pub proof fn lemma_filter_shrinks_iff<F>(hs: Seq<Handler<F>>, keep: spec_fn(Handler<F>) -> bool)
    ensures
        hs.filter(keep).len() <= hs.len(),
        hs.filter(keep).len() < hs.len() <==> exists|i: int|
            0 <= i < hs.len() && !keep(#[trigger] hs[i]),
    decreases hs.len(),
{
    reveal(Seq::filter);
    if hs.len() > 0 {
        let front = hs.drop_last();
        lemma_filter_shrinks_iff(front, keep);
        if exists|i: int| 0 <= i < front.len() && !keep(#[trigger] front[i]) {
            let w = choose|i: int| 0 <= i < front.len() && !keep(#[trigger] front[i]);
            assert(hs[w] == front[w]);
        }
        if exists|i: int| 0 <= i < hs.len() && !keep(#[trigger] hs[i]) {
            let w = choose|i: int| 0 <= i < hs.len() && !keep(#[trigger] hs[i]);
            if w < front.len() {
                assert(front[w] == hs[w]);
            }
        }
    }
}

} // verus!
