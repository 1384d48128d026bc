//! The shape of an identifier that may be written into statement text.

use vstd::prelude::*;

verus! {

/// A letter of the basic Latin alphabet or an underscore.
pub open spec fn is_ident_start(c: char) -> bool {
    ('a' <= c && c <= 'z') || ('A' <= c && c <= 'Z') || c == '_'
}

/// A character that may follow the first one: a letter, a digit or an underscore.
pub open spec fn is_ident_part(c: char) -> bool {
    is_ident_start(c) || ('0' <= c && c <= '9')
}

/// `[A-Za-z_][A-Za-z0-9_]*`
pub open spec fn is_identifier(s: Seq<char>) -> bool {
    &&& s.len() > 0
    &&& is_ident_start(s[0])
    &&& forall|i: int| 0 <= i < s.len() ==> is_ident_part(#[trigger] s[i])
}

fn ident_start(c: char) -> (b: bool)
    ensures
        b == is_ident_start(c),
{
    (c >= 'a' && c <= 'z') || (c >= 'A' && c <= 'Z') || c == '_'
}

fn ident_part(c: char) -> (b: bool)
    ensures
        b == is_ident_part(c),
{
    ident_start(c) || (c >= '0' && c <= '9')
}

/// Tells whether `name` has the identifier shape.
pub fn check_identifier(name: &str) -> (ok: bool)
    ensures
        ok == is_identifier(name@),
{
    let n: usize = name.unicode_len();
    if n == 0 {
        return false;
    }
    if !ident_start(name.get_char(0)) {
        return false;
    }
    let mut i: usize = 0;
    while i < n
        invariant
            n == name@.len(),
            i <= n,
            forall|j: int| 0 <= j < i ==> is_ident_part(#[trigger] name@[j]),
        decreases n - i,
    {
        if !ident_part(name.get_char(i)) {
            return false;
        }
        i += 1;
    }
    true
}

/// A name that holds a quote, a semicolon or white space is no identifier.
pub proof fn lemma_unsafe_character_rejected(s: Seq<char>, i: int)
    requires
        0 <= i < s.len(),
        s[i] == '\'' || s[i] == '"' || s[i] == '`' || s[i] == ';' || s[i] == ' ' || s[i] == '\t'
            || s[i] == '\n' || s[i] == '\r',
    ensures
        !is_identifier(s),
{
}

} // verus!
