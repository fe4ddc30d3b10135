//! The grammar of an encoded word, `=?charset?encoding?text?=`, and the
//! search for the first one in a text.
//!
//! A word may start anywhere in the text. Its charset and its text may hold
//! any character but a line feed, its encoding is one ASCII letter. Where
//! several readings are possible the earliest start wins, then the shortest
//! charset, then the shortest text.

use vstd::prelude::*;

verus! {

/// Where an encoded word lies in a sequence of characters: the index of its
/// leading `=`, the index of the `?` that ends the charset, and the index of
/// the `?` that ends the text.
#[derive(Clone, Copy, Debug, PartialEq, Eq, Structural)]
pub struct WordSpan {
    pub start: usize,
    pub charset_end: usize,
    pub text_end: usize,
}

/// No character of `s` in `[from, to)` is a line feed.
pub open spec fn no_line_feed(s: Seq<char>, from: int, to: int) -> bool {
    forall|i: int| from <= i < to ==> s[i] != '\n'
}

/// `c` can stand for an encoding: an ASCII letter.
pub open spec fn is_encoding_letter(c: char) -> bool {
    ('a' <= c && c <= 'z') || ('A' <= c && c <= 'Z')
}

/// `s` reads as an encoded word from `start` on, with the charset in
/// `[start + 2, charset_end)`, the encoding letter at `charset_end + 1` and
/// the text in `[charset_end + 3, text_end)`.
pub open spec fn is_word(s: Seq<char>, start: int, charset_end: int, text_end: int) -> bool {
    &&& 0 <= start
    &&& start + 2 <= charset_end
    &&& charset_end + 3 <= text_end
    &&& text_end + 2 <= s.len()
    &&& s[start] == '='
    &&& s[start + 1] == '?'
    &&& no_line_feed(s, start + 2, charset_end)
    &&& s[charset_end] == '?'
    &&& is_encoding_letter(s[charset_end + 1])
    &&& s[charset_end + 2] == '?'
    &&& no_line_feed(s, charset_end + 3, text_end)
    &&& s[text_end] == '?'
    &&& s[text_end + 1] == '='
}

/// `s` holds an encoded word somewhere.
pub open spec fn has_word(s: Seq<char>) -> bool {
    exists|a: int, b: int, c: int| is_word(s, a, b, c)
}

/// The triple `(a, b, c)` does not come after `(x, y, z)` in dictionary order.
pub open spec fn not_after(a: int, b: int, c: int, x: int, y: int, z: int) -> bool {
    a < x || (a == x && (b < y || (b == y && c <= z)))
}

/// `(start, charset_end, text_end)` is the reading of `s` that the search
/// settles on: a word, and no other reading of `s` comes before it.
pub open spec fn is_first_word(s: Seq<char>, start: int, charset_end: int, text_end: int) -> bool {
    &&& is_word(s, start, charset_end, text_end)
    &&& forall|a: int, b: int, c: int| #[trigger]
        is_word(s, a, b, c) ==> not_after(start, charset_end, text_end, a, b, c)
}

/// The first word of `s`, as `(start, charset_end, text_end)`; meaningful
/// where `has_word(s)`.
pub open spec fn first_word(s: Seq<char>) -> (int, int, int) {
    choose|w: (int, int, int)| is_first_word(s, w.0, w.1, w.2)
}

/// The charset of the word at `w`.
pub open spec fn charset_at(s: Seq<char>, w: (int, int, int)) -> Seq<char> {
    s.subrange(w.0 + 2, w.1)
}

/// The encoding letter of the word at `w`.
pub open spec fn letter_at(s: Seq<char>, w: (int, int, int)) -> char {
    s[w.1 + 1]
}

/// The text of the word at `w`.
pub open spec fn text_at(s: Seq<char>, w: (int, int, int)) -> Seq<char> {
    s.subrange(w.1 + 3, w.2)
}

/// A text has at most one first word.
pub proof fn lemma_first_word_unique(s: Seq<char>, a: int, b: int, c: int)
    requires
        is_first_word(s, a, b, c),
    ensures
        has_word(s),
        first_word(s) == (a, b, c),
{
    let w = (a, b, c);
    assert(is_first_word(s, w.0, w.1, w.2));
    let f = first_word(s);
    assert(is_first_word(s, f.0, f.1, f.2));
    assert(is_word(s, a, b, c));
    assert(is_word(s, f.0, f.1, f.2));
    assert(not_after(a, b, c, f.0, f.1, f.2));
    assert(not_after(f.0, f.1, f.2, a, b, c));
}

/// The closing `?=` of a word stands at `u`.
pub open spec fn closes_at(s: Seq<char>, u: int) -> bool {
    0 <= u && u + 2 <= s.len() && s[u] == '?' && s[u + 1] == '='
}

/// The first `?=` at or after `from` that no line feed comes before.
fn find_text_end(s: &Vec<char>, from: usize) -> (r: Option<usize>)
    requires
        from <= s.len(),
    ensures
        r matches Some(t) ==> {
            &&& from <= t
            &&& no_line_feed(s@, from as int, t as int)
            &&& closes_at(s@, t as int)
            &&& forall|u: int| from <= u < t ==> !closes_at(s@, u)
        },
        r is None ==> forall|u: int|
            from <= u && no_line_feed(s@, from as int, u) ==> !closes_at(s@, u),
{
    let n = s.len();
    let mut t: usize = from;
    while t < n
        invariant
            n == s.len(),
            from <= t <= n,
            no_line_feed(s@, from as int, t as int),
            forall|u: int| from <= u < t ==> !closes_at(s@, u),
        decreases n - t,
    {
        if s[t] == '?' && n - t > 1 && s[t + 1] == '=' {
            return Some(t);
        }
        if s[t] == '\n' {
            assert forall|u: int|
                from <= u && no_line_feed(s@, from as int, u) implies !closes_at(s@, u) by {
                if u > t {
                    assert(s@[t as int] == '\n');
                }
            }
            return None;
        }
        t = t + 1;
    }
    None
}

/// Whether `c` is an ASCII letter.
fn encoding_letter(c: char) -> (r: bool)
    ensures
        r == is_encoding_letter(c),
{
    ('a' <= c && c <= 'z') || ('A' <= c && c <= 'Z')
}

/// The first reading of `s` as a word that starts at `start`.
fn find_word_at(s: &Vec<char>, start: usize) -> (r: Option<(usize, usize)>)
    requires
        start + 2 <= s.len(),
        s[start as int] == '=',
        s[start + 1] == '?',
    ensures
        r matches Some((b, c)) ==> {
            &&& is_word(s@, start as int, b as int, c as int)
            &&& forall|y: int, z: int| #[trigger]
                is_word(s@, start as int, y, z) ==> b < y || (b == y && c <= z)
        },
        r is None ==> forall|y: int, z: int| !is_word(s@, start as int, y, z),
{
    let n = s.len();
    let mut b: usize = start + 2;
    while b < n
        invariant
            n == s.len(),
            start + 2 <= b <= n,
            s[start as int] == '=',
            s[start + 1] == '?',
            no_line_feed(s@, start + 2, b as int),
            forall|y: int, z: int| y < b ==> !is_word(s@, start as int, y, z),
        decreases n - b,
    {
        if s[b] == '?' && n - b > 2 && encoding_letter(s[b + 1]) && s[b + 2] == '?' {
            match find_text_end(s, b + 3) {
                Some(c) => {
                    assert(is_word(s@, start as int, b as int, c as int));
                    assert forall|y: int, z: int| #[trigger]
                        is_word(s@, start as int, y, z) implies b < y || (b == y && c <= z) by {
                        if y == b && z < c {
                            assert(closes_at(s@, z));
                        }
                    }
                    return Some((b, c));
                },
                None => {
                    assert forall|z: int| !is_word(s@, start as int, b as int, z) by {
                        if is_word(s@, start as int, b as int, z) {
                            assert(closes_at(s@, z));
                        }
                    }
                },
            }
        }
        if s[b] == '\n' {
            assert forall|y: int, z: int| !is_word(s@, start as int, y, z) by {
                if is_word(s@, start as int, y, z) && y > b {
                    assert(s@[b as int] == '\n');
                }
            }
            return None;
        }
        b = b + 1;
    }
    None
}

/// Finds the first encoded word of `s`.
///
/// Returns `None` exactly when `s` holds no word; otherwise the span of the
/// word that `is_first_word` describes.
pub fn find_word(s: &Vec<char>) -> (r: Option<WordSpan>)
    ensures
        r is None <==> !has_word(s@),
        r matches Some(w) ==> is_first_word(
            s@,
            w.start as int,
            w.charset_end as int,
            w.text_end as int,
        ),
{
    let n = s.len();
    let mut a: usize = 0;
    while a < n
        invariant
            n == s.len(),
            a <= n,
            forall|x: int, y: int, z: int| x < a ==> !is_word(s@, x, y, z),
        decreases n - a,
    {
        if s[a] == '=' && n - a > 1 && s[a + 1] == '?' {
            match find_word_at(s, a) {
                Some((b, c)) => {
                    assert(is_word(s@, a as int, b as int, c as int));
                    assert forall|x: int, y: int, z: int| #[trigger]
                        is_word(s@, x, y, z) implies not_after(
                        a as int,
                        b as int,
                        c as int,
                        x,
                        y,
                        z,
                    ) by {
                        if x == a {
                            assert(is_word(s@, a as int, y, z));
                        }
                    }
                    return Some(WordSpan { start: a, charset_end: b, text_end: c });
                },
                None => {},
            }
        }
        a = a + 1;
    }
    None
}

} // verus!
