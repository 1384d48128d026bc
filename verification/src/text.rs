//! Sequences of characters and the strings that hold them.

use vstd::prelude::*;

verus! {

/// The characters of each string of `v`, in order.
pub open spec fn texts(v: Seq<String>) -> Seq<Seq<char>> {
    v.map_values(|s: String| s@)
}

/// The characters of an optional string.
pub open spec fn opt_text(o: Option<String>) -> Option<Seq<char>> {
    match o {
        Some(s) => Some(s@),
        None => None,
    }
}

/// `e` between round brackets.
pub open spec fn paren(e: Seq<char>) -> Seq<char> {
    seq!['('] + e + seq![')']
}

/// Every term of `terms` between round brackets, with `sep` between neighbours.
pub open spec fn join_paren(terms: Seq<Seq<char>>, sep: Seq<char>) -> Seq<char>
    decreases terms.len(),
{
    if terms.len() == 0 {
        Seq::empty()
    } else if terms.len() == 1 {
        paren(terms[0])
    } else {
        join_paren(terms.drop_last(), sep) + sep + paren(terms.last())
    }
}

/// A single term stands as it is; several are bracketed and joined by `sep`.
pub open spec fn group(terms: Seq<Seq<char>>, sep: Seq<char>) -> Seq<char> {
    if terms.len() == 1 {
        terms[0]
    } else {
        join_paren(terms, sep)
    }
}

/// Appends `e` between round brackets to `out`.
pub fn push_paren(out: &mut String, e: &str)
    ensures
        final(out)@ == old(out)@ + paren(e@),
{
    proof {
        reveal_strlit("(");
        reveal_strlit(")");
    }
    out.append("(");
    out.append(e);
    out.append(")");
    assert(out@ =~= old(out)@ + paren(e@));
}

/// Writes `group(terms, sep)`.
pub fn group_terms(terms: &Vec<String>, sep: &str) -> (out: String)
    ensures
        out@ == group(texts(terms@), sep@),
{
    let n: usize = terms.len();
    if n == 1 {
        return terms[0].clone();
    }
    let mut out = String::new();
    let mut i: usize = 0;
    while i < n
        invariant
            n == terms@.len(),
            i <= n,
            out@ == join_paren(texts(terms@).take(i as int), sep@),
        decreases n - i,
    {
        let ghost before = texts(terms@).take(i as int);
        let ghost after = texts(terms@).take(i + 1);
        assert(after.drop_last() =~= before);
        assert(after.last() == terms@[i as int]@);
        if i > 0 {
            out.append(sep);
        }
        push_paren(&mut out, terms[i].as_str());
        assert(out@ =~= join_paren(after, sep@));
        i += 1;
    }
    assert(texts(terms@).take(n as int) =~= texts(terms@));
    out
}

/// Calls `String::push` of std, which appends one character.
#[verifier::external_body]
pub(crate) fn push_char(out: &mut String, c: char)
    ensures
        final(out)@ == old(out)@.push(c),
{
    out.push(c);
}

/// A copy of an optional string.
pub fn copy_opt(o: &Option<String>) -> (r: Option<String>)
    ensures
        opt_text(r) == opt_text(*o),
{
    match o {
        Some(s) => Some(s.clone()),
        None => None,
    }
}

/// The pieces of `s` between the occurrences of `sep`. There is always at
/// least one piece, and an empty text has one empty piece.
pub open spec fn pieces(s: Seq<char>, sep: char) -> Seq<Seq<char>>
    decreases s.len(),
{
    if s.len() == 0 {
        seq![Seq::<char>::empty()]
    } else {
        let rest = pieces(s.drop_last(), sep);
        if s.last() == sep {
            rest.push(Seq::<char>::empty())
        } else {
            rest.drop_last().push(rest.last().push(s.last()))
        }
    }
}

/// There is always a piece.
pub proof fn lemma_pieces_nonempty(s: Seq<char>, sep: char)
    ensures
        pieces(s, sep).len() > 0,
    decreases s.len(),
{
    if s.len() > 0 {
        lemma_pieces_nonempty(s.drop_last(), sep);
    }
}

/// A text has one piece exactly where the separator does not occur in it, and
/// that piece is the text.
pub proof fn lemma_pieces_single(s: Seq<char>, sep: char)
    ensures
        pieces(s, sep).len() == 1 <==> forall|i: int| 0 <= i < s.len() ==> s[i] != sep,
        pieces(s, sep).len() == 1 ==> pieces(s, sep) == seq![s],
    decreases s.len(),
{
    if s.len() == 0 {
        assert(s =~= Seq::<char>::empty());
    } else {
        let front = s.drop_last();
        lemma_pieces_single(front, sep);
        lemma_pieces_nonempty(front, sep);
        if s.last() == sep {
            assert(s[s.len() - 1] == sep);
        } else {
            let rest = pieces(front, sep);
            if rest.len() == 1 {
                assert forall|i: int| 0 <= i < s.len() implies s[i] != sep by {
                    if i < front.len() {
                        assert(front[i] == s[i]);
                    }
                }
                assert(rest.last().push(s.last()) =~= s);
                assert(pieces(s, sep) =~= seq![s]);
            } else {
                let w = choose|i: int| 0 <= i < front.len() && front[i] == sep;
                assert(s[w] == sep);
            }
        }
    }
}

/// The pieces of two texts joined by the separator are the pieces of the
/// first and then the pieces of the second.
pub proof fn lemma_pieces_joined(x: Seq<char>, y: Seq<char>, sep: char)
    ensures
        pieces(x + seq![sep] + y, sep) == pieces(x, sep) + pieces(y, sep),
    decreases y.len(),
{
    let s = x + seq![sep] + y;
    if y.len() == 0 {
        assert(s.drop_last() =~= x);
        assert(pieces(x, sep).push(Seq::<char>::empty()) =~= pieces(x, sep) + pieces(y, sep));
    } else {
        let front = y.drop_last();
        lemma_pieces_joined(x, front, sep);
        lemma_pieces_nonempty(front, sep);
        assert(s.drop_last() =~= x + seq![sep] + front);
        assert(s.last() == y.last());
        let rest = pieces(x, sep) + pieces(front, sep);
        if y.last() == sep {
            assert(rest.push(Seq::<char>::empty()) =~= pieces(x, sep) + pieces(y, sep));
        } else {
            assert(rest.drop_last() =~= pieces(x, sep) + pieces(front, sep).drop_last());
            assert(rest.drop_last().push(rest.last().push(y.last())) =~= pieces(x, sep) + pieces(
                y,
                sep,
            ));
        }
    }
}

/// Splits `text` at each occurrence of `sep`.
pub fn split_text(text: &str, sep: char) -> (parts: Vec<String>)
    ensures
        texts(parts@) == pieces(text@, sep),
{
    let mut done: Vec<String> = Vec::new();
    let mut current = String::new();
    let n: usize = text.unicode_len();
    let mut i: usize = 0;
    assert(text@.take(0) =~= Seq::<char>::empty());
    assert(texts(done@).push(current@) =~= pieces(text@.take(0), sep));
    while i < n
        invariant
            n == text@.len(),
            i <= n,
            texts(done@).push(current@) == pieces(text@.take(i as int), sep),
        decreases n - i,
    {
        let c = text.get_char(i);
        let ghost before = text@.take(i as int);
        let ghost after = text@.take(i + 1);
        proof {
            assert(after.drop_last() =~= before);
            assert(after.last() == c);
        }
        if c == sep {
            proof {
                done@.lemma_push_map_commute(|s: String| s@, current);
            }
            done.push(current);
            current = String::new();
            assert(texts(done@).push(current@) =~= pieces(after, sep));
        } else {
            let ghost old_current = current@;
            push_char(&mut current, c);
            assert(texts(done@).push(old_current).drop_last() =~= texts(done@));
            assert(texts(done@).push(current@) =~= pieces(after, sep));
        }
        i += 1;
    }
    assert(text@.take(n as int) =~= text@);
    proof {
        done@.lemma_push_map_commute(|s: String| s@, current);
    }
    done.push(current);
    done
}

/// Tells whether two strings hold the same characters.
pub fn same_text(a: &str, b: &str) -> (r: bool)
    ensures
        r == (a@ == b@),
{
    let n: usize = a.unicode_len();
    if n != b.unicode_len() {
        return false;
    }
    let mut i: usize = 0;
    while i < n
        invariant
            n == a@.len(),
            n == b@.len(),
            i <= n,
            forall|j: int| 0 <= j < i ==> a@[j] == b@[j],
        decreases n - i,
    {
        if a.get_char(i) != b.get_char(i) {
            return false;
        }
        i += 1;
    }
    assert(a@ =~= b@);
    true
}

} // verus!
