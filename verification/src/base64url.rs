//! The URL-safe base 64 alphabet without padding, as the segments of a
//! compact token are written in.

use vstd::prelude::*;
use crate::text::push_char;

verus! {

/// The character that stands for a group of six bits.
pub open spec fn symbol(v: u8) -> char {
    if v < 26 {
        (65 + v) as char
    } else if v < 52 {
        (71 + v) as char
    } else if v < 62 {
        (v - 4) as char
    } else if v == 62 {
        '-'
    } else {
        '_'
    }
}

/// The six bits that a character stands for, if it is of the alphabet.
pub open spec fn sextet(c: char) -> Option<u8> {
    if 'A' <= c && c <= 'Z' {
        Some((c as u8 - 65) as u8)
    } else if 'a' <= c && c <= 'z' {
        Some((c as u8 - 71) as u8)
    } else if '0' <= c && c <= '9' {
        Some((c as u8 + 4) as u8)
    } else if c == '-' {
        Some(62u8)
    } else if c == '_' {
        Some(63u8)
    } else {
        None
    }
}

/// The text of a sequence of bytes: four characters for every three bytes,
/// and two or three characters for one or two bytes that are left.
pub open spec fn encoded(bytes: Seq<u8>) -> Seq<char>
    decreases bytes.len(),
{
    if bytes.len() == 0 {
        Seq::<char>::empty()
    } else if bytes.len() == 1 {
        seq![symbol(bytes[0] >> 2), symbol((bytes[0] & 3) << 4)]
    } else if bytes.len() == 2 {
        seq![
            symbol(bytes[0] >> 2),
            symbol(((bytes[0] & 3) << 4) | (bytes[1] >> 4)),
            symbol((bytes[1] & 15) << 2),
        ]
    } else {
        seq![
            symbol(bytes[0] >> 2),
            symbol(((bytes[0] & 3) << 4) | (bytes[1] >> 4)),
            symbol(((bytes[1] & 15) << 2) | (bytes[2] >> 6)),
            symbol(bytes[2] & 63),
        ] + encoded(bytes.skip(3))
    }
}

/// The bytes that a text stands for. A text with a character outside the
/// alphabet, of a length that no sequence of bytes has, or with bits set
/// behind its last byte stands for none.
pub open spec fn decoded(text: Seq<char>) -> Option<Seq<u8>>
    decreases text.len(),
{
    if text.len() == 0 {
        Some(Seq::<u8>::empty())
    } else if text.len() == 1 {
        None
    } else if text.len() == 2 {
        match (sextet(text[0]), sextet(text[1])) {
            (Some(a), Some(b)) => if b & 15 == 0 {
                Some(seq![(a << 2) | (b >> 4)])
            } else {
                None
            },
            _ => None,
        }
    } else if text.len() == 3 {
        match (sextet(text[0]), sextet(text[1]), sextet(text[2])) {
            (Some(a), Some(b), Some(c)) => if c & 3 == 0 {
                Some(seq![(a << 2) | (b >> 4), ((b & 15) << 4) | (c >> 2)])
            } else {
                None
            },
            _ => None,
        }
    } else {
        match (sextet(text[0]), sextet(text[1]), sextet(text[2]), sextet(text[3])) {
            (Some(a), Some(b), Some(c), Some(d)) => match decoded(text.skip(4)) {
                Some(rest) => Some(
                    seq![(a << 2) | (b >> 4), ((b & 15) << 4) | (c >> 2), ((c & 3) << 6) | d]
                        + rest,
                ),
                None => None,
            },
            _ => None,
        }
    }
}

fn symbol_of(v: u8) -> (c: char)
    requires
        v < 64,
    ensures
        c == symbol(v),
{
    if v < 26 {
        (65 + v) as char
    } else if v < 52 {
        (71 + v) as char
    } else if v < 62 {
        (v - 4) as char
    } else if v == 62 {
        '-'
    } else {
        '_'
    }
}

fn sextet_of(c: char) -> (v: Option<u8>)
    ensures
        v == sextet(c),
        v matches Some(x) ==> x < 64,
{
    if 'A' <= c && c <= 'Z' {
        Some(c as u8 - 65)
    } else if 'a' <= c && c <= 'z' {
        Some(c as u8 - 71)
    } else if '0' <= c && c <= '9' {
        Some(c as u8 + 4)
    } else if c == '-' {
        Some(62u8)
    } else if c == '_' {
        Some(63u8)
    } else {
        None
    }
}

/// Writes bytes as text.
pub fn encode(bytes: &[u8]) -> (text: String)
    ensures
        text@ == encoded(bytes@),
{
    let mut text = String::new();
    let n: usize = bytes.len();
    let mut i: usize = 0;
    assert(bytes@.skip(0) =~= bytes@);
    while n - i >= 3
        invariant
            n == bytes@.len(),
            i <= n,
            encoded(bytes@) == text@ + encoded(bytes@.skip(i as int)),
        decreases n - i,
    {
        let a = bytes[i];
        let b = bytes[i + 1];
        let c = bytes[i + 2];
        let ghost tail = bytes@.skip(i as int);
        let ghost before = text@;
        proof {
            assert(tail[0] == a && tail[1] == b && tail[2] == c);
            assert(tail.skip(3) =~= bytes@.skip(i + 3));
            assert(a >> 2 < 64) by (bit_vector);
            assert(((a & 3) << 4) | (b >> 4) < 64) by (bit_vector);
            assert(((b & 15) << 2) | (c >> 6) < 64) by (bit_vector);
            assert(c & 63 < 64) by (bit_vector);
        }
        push_char(&mut text, symbol_of(a >> 2));
        push_char(&mut text, symbol_of(((a & 3) << 4) | (b >> 4)));
        push_char(&mut text, symbol_of(((b & 15) << 2) | (c >> 6)));
        push_char(&mut text, symbol_of(c & 63));
        assert(text@ + encoded(bytes@.skip(i + 3)) =~= before + encoded(tail));
        i += 3;
    }
    let ghost tail = bytes@.skip(i as int);
    let ghost before = text@;
    if n - i == 1 {
        let a = bytes[i];
        proof {
            assert(tail[0] == a);
            assert(a >> 2 < 64) by (bit_vector);
            assert((a & 3) << 4 < 64) by (bit_vector);
        }
        push_char(&mut text, symbol_of(a >> 2));
        push_char(&mut text, symbol_of((a & 3) << 4));
        assert(text@ =~= before + encoded(tail));
    } else if n - i == 2 {
        let a = bytes[i];
        let b = bytes[i + 1];
        proof {
            assert(tail[0] == a && tail[1] == b);
            assert(a >> 2 < 64) by (bit_vector);
            assert(((a & 3) << 4) | (b >> 4) < 64) by (bit_vector);
            assert((b & 15) << 2 < 64) by (bit_vector);
        }
        push_char(&mut text, symbol_of(a >> 2));
        push_char(&mut text, symbol_of(((a & 3) << 4) | (b >> 4)));
        push_char(&mut text, symbol_of((b & 15) << 2));
        assert(text@ =~= before + encoded(tail));
    } else {
        assert(text@ =~= before + encoded(tail));
    }
    text
}

/// Reads text back into bytes.
pub fn decode(text: &str) -> (bytes: Option<Vec<u8>>)
    ensures
        bytes is Some <==> decoded(text@) is Some,
        bytes matches Some(b) ==> b@ == decoded(text@)->0,
{
    let mut out: Vec<u8> = Vec::new();
    let n: usize = text.unicode_len();
    let mut i: usize = 0;
    assert(text@.skip(0) =~= text@);
    while n - i >= 4
        invariant
            n == text@.len(),
            i <= n,
            decoded(text@) == match decoded(text@.skip(i as int)) {
                Some(rest) => Some(out@ + rest),
                None => None,
            },
        decreases n - i,
    {
        let ghost tail = text@.skip(i as int);
        let ghost before = out@;
        proof {
            assert(tail[0] == text@[i as int] && tail[1] == text@[i + 1] && tail[2] == text@[i
                + 2] && tail[3] == text@[i + 3]);
            assert(tail.skip(4) =~= text@.skip(i + 4));
        }
        let a = match sextet_of(text.get_char(i)) {
            Some(v) => v,
            None => { return None; },
        };
        let b = match sextet_of(text.get_char(i + 1)) {
            Some(v) => v,
            None => { return None; },
        };
        let c = match sextet_of(text.get_char(i + 2)) {
            Some(v) => v,
            None => { return None; },
        };
        let d = match sextet_of(text.get_char(i + 3)) {
            Some(v) => v,
            None => { return None; },
        };
        out.push((a << 2) | (b >> 4));
        out.push(((b & 15) << 4) | (c >> 2));
        out.push(((c & 3) << 6) | d);
        proof {
            match decoded(text@.skip(i + 4)) {
                Some(rest) => {
                    assert(out@ + rest =~= before + (seq![
                        (a << 2) | (b >> 4),
                        ((b & 15) << 4) | (c >> 2),
                        ((c & 3) << 6) | d,
                    ] + rest));
                },
                None => {},
            }
        }
        i += 4;
    }
    let ghost tail = text@.skip(i as int);
    let ghost before = out@;
    if n - i == 0 {
        assert(out@ =~= before + Seq::<u8>::empty());
        Some(out)
    } else if n - i == 1 {
        None
    } else if n - i == 2 {
        proof {
            assert(tail[0] == text@[i as int] && tail[1] == text@[i + 1]);
        }
        let a = match sextet_of(text.get_char(i)) {
            Some(v) => v,
            None => { return None; },
        };
        let b = match sextet_of(text.get_char(i + 1)) {
            Some(v) => v,
            None => { return None; },
        };
        if b & 15 != 0 {
            return None;
        }
        out.push((a << 2) | (b >> 4));
        assert(out@ =~= before + seq![(a << 2) | (b >> 4)]);
        Some(out)
    } else {
        proof {
            assert(tail[0] == text@[i as int] && tail[1] == text@[i + 1] && tail[2] == text@[i
                + 2]);
        }
        let a = match sextet_of(text.get_char(i)) {
            Some(v) => v,
            None => { return None; },
        };
        let b = match sextet_of(text.get_char(i + 1)) {
            Some(v) => v,
            None => { return None; },
        };
        let c = match sextet_of(text.get_char(i + 2)) {
            Some(v) => v,
            None => { return None; },
        };
        if c & 3 != 0 {
            return None;
        }
        out.push((a << 2) | (b >> 4));
        out.push(((b & 15) << 4) | (c >> 2));
        assert(out@ =~= before + seq![(a << 2) | (b >> 4), ((b & 15) << 4) | (c >> 2)]);
        Some(out)
    }
}

/// Each group of six bits comes back from its character.
pub proof fn lemma_sextet_of_symbol(v: u8)
    requires
        v < 64,
    ensures
        sextet(symbol(v)) == Some(v),
{
}

/// Each character of the alphabet comes back from its six bits.
pub proof fn lemma_symbol_of_sextet(c: char)
    requires
        sextet(c) is Some,
    ensures
        sextet(c)->0 < 64,
        symbol(sextet(c)->0) == c,
{
}

/// A text is made of characters of the alphabet only: no dot, no padding.
pub proof fn lemma_encoded_in_alphabet(bytes: Seq<u8>)
    ensures
        forall|i: int|
            0 <= i < encoded(bytes).len() ==> sextet(#[trigger] encoded(bytes)[i]) is Some
                && encoded(bytes)[i] != '.',
    decreases bytes.len(),
{
    let text = encoded(bytes);
    assert forall|v: u8| sextet(#[trigger] symbol(v)) is Some && symbol(v) != '.' by {}
    if bytes.len() >= 3 {
        lemma_encoded_in_alphabet(bytes.skip(3));
        let rest = encoded(bytes.skip(3));
        assert forall|i: int| 0 <= i < text.len() implies sextet(#[trigger] text[i]) is Some
            && text[i] != '.' by {
            if i >= 4 {
                assert(text[i] == rest[i - 4]);
            }
        }
    }
}

/// Only the text of a sequence of bytes is read back into it: no two texts
/// stand for the same bytes.
pub proof fn law_encode_inverts_decode(text: Seq<char>)
    requires
        decoded(text) is Some,
    ensures
        encoded(decoded(text)->0) == text,
    decreases text.len(),
{
    let bytes = decoded(text)->0;
    if text.len() == 0 {
        assert(encoded(bytes) =~= text);
    } else if text.len() == 2 {
        let a = sextet(text[0])->0;
        let b = sextet(text[1])->0;
        lemma_symbol_of_sextet(text[0]);
        lemma_symbol_of_sextet(text[1]);
        let x = (a << 2) | (b >> 4);
        assert(x >> 2 == a && (x & 3) << 4 == b) by (bit_vector)
            requires
                a < 64,
                b < 64,
                b & 15 == 0,
                x == (a << 2) | (b >> 4),
        ;
        assert(bytes.len() == 1 && bytes[0] == x);
        assert(encoded(bytes) =~= text);
    } else if text.len() == 3 {
        let a = sextet(text[0])->0;
        let b = sextet(text[1])->0;
        let c = sextet(text[2])->0;
        lemma_symbol_of_sextet(text[0]);
        lemma_symbol_of_sextet(text[1]);
        lemma_symbol_of_sextet(text[2]);
        let x = (a << 2) | (b >> 4);
        let y = ((b & 15) << 4) | (c >> 2);
        assert(x >> 2 == a && ((x & 3) << 4) | (y >> 4) == b && (y & 15) << 2 == c) by (bit_vector)
            requires
                a < 64,
                b < 64,
                c < 64,
                c & 3 == 0,
                x == (a << 2) | (b >> 4),
                y == ((b & 15) << 4) | (c >> 2),
        ;
        assert(bytes.len() == 2 && bytes[0] == x && bytes[1] == y);
        assert(encoded(bytes) =~= text);
    } else if text.len() >= 4 {
        let a = sextet(text[0])->0;
        let b = sextet(text[1])->0;
        let c = sextet(text[2])->0;
        let d = sextet(text[3])->0;
        lemma_symbol_of_sextet(text[0]);
        lemma_symbol_of_sextet(text[1]);
        lemma_symbol_of_sextet(text[2]);
        lemma_symbol_of_sextet(text[3]);
        let x = (a << 2) | (b >> 4);
        let y = ((b & 15) << 4) | (c >> 2);
        let z = ((c & 3) << 6) | d;
        assert(x >> 2 == a && ((x & 3) << 4) | (y >> 4) == b && ((y & 15) << 2) | (z >> 6) == c
            && z & 63 == d) by (bit_vector)
            requires
                a < 64,
                b < 64,
                c < 64,
                d < 64,
                x == (a << 2) | (b >> 4),
                y == ((b & 15) << 4) | (c >> 2),
                z == ((c & 3) << 6) | d,
        ;
        let tail = text.skip(4);
        law_encode_inverts_decode(tail);
        let rest = decoded(tail)->0;
        assert(bytes =~= seq![x, y, z] + rest);
        assert(bytes.skip(3) =~= rest);
        assert(bytes.len() >= 3 && bytes[0] == x && bytes[1] == y && bytes[2] == z);
        assert(encoded(bytes) =~= seq![text[0], text[1], text[2], text[3]] + encoded(rest));
        assert(seq![text[0], text[1], text[2], text[3]] + tail =~= text);
    }
}

/// Every sequence of bytes comes back from its text.
pub proof fn law_decode_inverts_encode(bytes: Seq<u8>)
    ensures
        decoded(encoded(bytes)) == Some(bytes),
    decreases bytes.len(),
{
    let text = encoded(bytes);
    if bytes.len() == 0 {
        assert(bytes =~= Seq::<u8>::empty());
    } else if bytes.len() == 1 {
        let a = bytes[0];
        let x = a >> 2;
        let y = (a & 3) << 4;
        assert(x < 64 && y < 64 && y & 15 == 0 && (x << 2) | (y >> 4) == a) by (bit_vector)
            requires
                x == a >> 2,
                y == (a & 3) << 4,
        ;
        lemma_sextet_of_symbol(x);
        lemma_sextet_of_symbol(y);
        assert(text.len() == 2);
        assert(seq![a] =~= bytes);
    } else if bytes.len() == 2 {
        let a = bytes[0];
        let b = bytes[1];
        let x = a >> 2;
        let y = ((a & 3) << 4) | (b >> 4);
        let z = (b & 15) << 2;
        assert(x < 64 && y < 64 && z < 64 && z & 3 == 0 && (x << 2) | (y >> 4) == a && ((y & 15)
            << 4) | (z >> 2) == b) by (bit_vector)
            requires
                x == a >> 2,
                y == ((a & 3) << 4) | (b >> 4),
                z == (b & 15) << 2,
        ;
        lemma_sextet_of_symbol(x);
        lemma_sextet_of_symbol(y);
        lemma_sextet_of_symbol(z);
        assert(text.len() == 3);
        assert(seq![a, b] =~= bytes);
    } else {
        let a = bytes[0];
        let b = bytes[1];
        let c = bytes[2];
        let x = a >> 2;
        let y = ((a & 3) << 4) | (b >> 4);
        let z = ((b & 15) << 2) | (c >> 6);
        let w = c & 63;
        assert(x < 64 && y < 64 && z < 64 && w < 64 && (x << 2) | (y >> 4) == a && ((y & 15) << 4)
            | (z >> 2) == b && ((z & 3) << 6) | w == c) by (bit_vector)
            requires
                x == a >> 2,
                y == ((a & 3) << 4) | (b >> 4),
                z == ((b & 15) << 2) | (c >> 6),
                w == c & 63,
        ;
        lemma_sextet_of_symbol(x);
        lemma_sextet_of_symbol(y);
        lemma_sextet_of_symbol(z);
        lemma_sextet_of_symbol(w);
        let rest = bytes.skip(3);
        law_decode_inverts_encode(rest);
        assert(text.len() >= 4);
        assert(text[0] == symbol(x) && text[1] == symbol(y) && text[2] == symbol(z) && text[3]
            == symbol(w));
        assert(text.skip(4) =~= encoded(rest));
        assert(seq![a, b, c] + rest =~= bytes);
    }
}

} // verus!
