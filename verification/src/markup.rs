//! A test on HTML before it is rendered: whether a `colspan` or a `start`
//! attribute in it can hold a number too large for the renderer.
//!
//! The test reads the text, not the document, and errs on the safe side.
//! It looks at every place where an attribute of that name can begin: where
//! the name stands, whatever the case of its letters, after white space, a
//! `/` or a quote, and is followed by `=`, white space apart. A name after
//! any other character is part of a longer name or of something that is
//! no tag, as `start` is in the address `?start=1`.
//!
//! At such a place it counts the digits of what follows the `=`, as far as
//! the characters go of which a number can be written: digits, signs, and
//! what character references are made of. A number that the attribute
//! holds has no more digits than that, however it is written: a digit
//! written as a character reference takes at least two digits to write,
//! and any other character makes the value no number.

use vstd::prelude::*;

verus! {

/// How many digits a `colspan` may be written with.
pub const COLSPAN_DIGITS: usize = 4;

/// How many times `colspan` may stand in a text.
pub const COLSPAN_COUNT: usize = 10000;

/// How many digits a `start` may be written with.
pub const START_DIGITS: usize = 15;

/// White space between the parts of a tag.
pub open spec fn is_space(c: char) -> bool {
    c == ' ' || c == '\t' || c == '\n' || c == '\r' || c == '\u{c}'
}

/// A character of which a number in an attribute can be written: a digit,
/// a sign, or a character that a character reference is made of, which are
/// `&`, `#`, `;` and the ASCII letters.
pub open spec fn in_number(c: char) -> bool {
    ||| is_digit(c)
    ||| c == '+'
    ||| c == '-'
    ||| c == '&'
    ||| c == '#'
    ||| c == ';'
    ||| ('a' <= c && c <= 'z')
    ||| ('A' <= c && c <= 'Z')
}

/// A character that cannot stand in a number held by an attribute, and so
/// ends the run in which digits are counted.
pub open spec fn ends_value(c: char) -> bool {
    !in_number(c)
}

/// A character after which the name of an attribute can begin: white
/// space, `/`, or the quote that closes the value before it.
pub open spec fn before_name(c: char) -> bool {
    is_space(c) || c == '/' || c == '"' || c == '\''
}

/// `c` is an ASCII digit.
pub open spec fn is_digit(c: char) -> bool {
    '0' <= c && c <= '9'
}

/// `c` with an ASCII capital turned into its small letter.
pub open spec fn lower(c: char) -> char {
    if 'A' <= c && c <= 'Z' {
        ((c as u8) + 32) as char
    } else {
        c
    }
}

/// The first index at or after `i` that holds no white space.
pub open spec fn skip_spaces(s: Seq<char>, i: int) -> int
    decreases s.len() - i,
{
    if 0 <= i < s.len() && is_space(s[i]) {
        skip_spaces(s, i + 1)
    } else {
        i
    }
}

/// How many digits stand in the run that starts at `i` and goes up to the
/// first character that ends a value.
pub open spec fn run_digits(s: Seq<char>, i: int) -> nat
    decreases s.len() - i,
{
    if 0 <= i < s.len() && !ends_value(s[i]) {
        run_digits(s, i + 1) + if is_digit(s[i]) {
            1nat
        } else {
            0nat
        }
    } else {
        0
    }
}

/// How many digits the value of an attribute can have whose name ends
/// before `e`: none unless `=` follows the name, white space apart; else
/// the digits of the run after the `=`, white space and one quote apart.
pub open spec fn value_digits(s: Seq<char>, e: int) -> nat {
    let a = skip_spaces(s, e);
    if 0 <= a < s.len() && s[a] == '=' {
        let b = skip_spaces(s, a + 1);
        if 0 <= b < s.len() && (s[b] == '"' || s[b] == '\'') {
            run_digits(s, b + 1)
        } else {
            run_digits(s, b)
        }
    } else {
        0
    }
}

/// `name`, given in small letters, stands in `s` at `i`, whatever the case
/// of the letters in `s`.
pub open spec fn names_at(s: Seq<char>, name: Seq<char>, i: int) -> bool {
    &&& 0 <= i
    &&& i + name.len() <= s.len()
    &&& forall|k: int| 0 <= k < name.len() ==> lower(#[trigger] s[i + k]) == name[k]
}

/// An attribute called `name` can begin in `s` at `i`: the name stands
/// there, after a character after which a name can begin.
pub open spec fn attribute_at(s: Seq<char>, name: Seq<char>, i: int) -> bool {
    1 <= i && i <= s.len() && before_name(s[i - 1]) && names_at(s, name, i)
}

/// At how many indices below `upto` an attribute called `name` can begin.
pub open spec fn count_names(s: Seq<char>, name: Seq<char>, upto: int) -> nat
    decreases upto,
{
    if upto <= 0 {
        0
    } else {
        count_names(s, name, upto - 1) + if attribute_at(s, name, upto - 1) {
            1nat
        } else {
            0nat
        }
    }
}

/// Wherever an attribute called `name` can begin in `s`, the value after
/// it has at most `digits` digits.
pub open spec fn values_short(s: Seq<char>, name: Seq<char>, digits: int) -> bool {
    forall|i: int| #[trigger]
        attribute_at(s, name, i) ==> value_digits(s, i + name.len()) <= digits
}

/// The text can be rendered: no `colspan` attribute in it is written with
/// more than four digits, there are at most ten thousand of them, and no
/// `start` attribute in it is written with more than fifteen digits.
pub open spec fn renders_safely(s: Seq<char>) -> bool {
    &&& values_short(s, "colspan"@, COLSPAN_DIGITS as int)
    &&& count_names(s, "colspan"@, s.len() as int) <= COLSPAN_COUNT
    &&& values_short(s, "start"@, START_DIGITS as int)
}

/// `c` with an ASCII capital turned into its small letter.
fn to_lower(c: char) -> (r: char)
    ensures
        r == lower(c),
{
    if 'A' <= c && c <= 'Z' {
        ((c as u8) + 32) as char
    } else {
        c
    }
}

/// Whether a number in an attribute can be written with `c`.
fn number_char(c: char) -> (r: bool)
    ensures
        r == in_number(c),
{
    ('0' <= c && c <= '9') || c == '+' || c == '-' || c == '&' || c == '#' || c == ';' || ('a'
        <= c && c <= 'z') || ('A' <= c && c <= 'Z')
}

/// Whether `c` is white space.
fn space(c: char) -> (r: bool)
    ensures
        r == is_space(c),
{
    c == ' ' || c == '\t' || c == '\n' || c == '\r' || c == '\u{c}'
}

/// The first index at or after `i` that holds no white space.
fn after_spaces(s: &Vec<char>, i: usize) -> (r: usize)
    requires
        i <= s.len(),
    ensures
        r == skip_spaces(s@, i as int),
        i <= r <= s.len(),
{
    let mut j: usize = i;
    while j < s.len() && space(s[j])
        invariant
            i <= j <= s.len(),
            skip_spaces(s@, i as int) == skip_spaces(s@, j as int),
        decreases s.len() - j,
    {
        j = j + 1;
    }
    j
}

/// How many digits stand in the run that starts at `i`.
fn digits_of_run(s: &Vec<char>, i: usize) -> (r: usize)
    requires
        i <= s.len(),
    ensures
        r == run_digits(s@, i as int),
{
    let mut j: usize = i;
    let mut count: usize = 0;
    while j < s.len() && number_char(s[j])
        invariant
            i <= j <= s.len(),
            count <= j - i,
            run_digits(s@, i as int) == count + run_digits(s@, j as int),
        decreases s.len() - j,
    {
        if '0' <= s[j] && s[j] <= '9' {
            count = count + 1;
        }
        j = j + 1;
    }
    count
}

/// How many digits the value of an attribute can have whose name ends
/// before `e`.
pub fn digits_of_value(s: &Vec<char>, e: usize) -> (r: usize)
    requires
        e <= s.len(),
    ensures
        r == value_digits(s@, e as int),
{
    let a = after_spaces(s, e);
    if a < s.len() && s[a] == '=' {
        let b = after_spaces(s, a + 1);
        if b < s.len() && (s[b] == '"' || s[b] == '\'') {
            digits_of_run(s, b + 1)
        } else {
            digits_of_run(s, b)
        }
    } else {
        0
    }
}

/// Whether `name`, given in small letters, stands in `s` at `i`.
pub fn name_stands_at(s: &Vec<char>, name: &Vec<char>, i: usize) -> (r: bool)
    ensures
        r == names_at(s@, name@, i as int),
{
    let n = s.len();
    let m = name.len();
    if i > n || m > n - i {
        return false;
    }
    let mut k: usize = 0;
    while k < m
        invariant
            n == s.len(),
            m == name.len(),
            i + m <= n,
            k <= m,
            forall|j: int| 0 <= j < k ==> lower(#[trigger] s[i + j]) == name[j],
        decreases m - k,
    {
        if to_lower(s[i + k]) != name[k] {
            return false;
        }
        k = k + 1;
    }
    true
}

/// Whether an attribute called `name`, given in small letters, can begin in
/// `s` at `i`.
pub fn attribute_begins_at(s: &Vec<char>, name: &Vec<char>, i: usize) -> (r: bool)
    ensures
        r == attribute_at(s@, name@, i as int),
{
    if i == 0 || i > s.len() {
        return false;
    }
    let c = s[i - 1];
    (space(c) || c == '/' || c == '"' || c == '\'') && name_stands_at(s, name, i)
}

/// Whether an attribute called `name` can begin in `s` at most `count`
/// times, each time with a value of at most `digits` digits.
pub fn name_within(s: &Vec<char>, name: &Vec<char>, digits: usize, count: usize) -> (r: bool)
    ensures
        r == (values_short(s@, name@, digits as int) && count_names(s@, name@, s.len() as int)
            <= count),
{
    let n = s.len();
    let m = name.len();
    let mut seen: usize = 0;
    let mut i: usize = 0;
    while i < n
        invariant
            n == s.len(),
            m == name.len(),
            i <= n,
            seen == count_names(s@, name@, i as int),
            seen <= count,
            seen <= i,
            forall|j: int|
                0 <= j < i && #[trigger] attribute_at(s@, name@, j) ==> value_digits(s@, j + m)
                    <= digits,
        decreases n - i,
    {
        if attribute_begins_at(s, name, i) {
            if digits_of_value(s, i + m) > digits {
                return false;
            }
            if seen >= count {
                proof {
                    lemma_count_grows(s@, name@, i + 1, n as int);
                }
                return false;
            }
            seen = seen + 1;
        }
        i = i + 1;
    }
    assert forall|j: int| #[trigger] attribute_at(s@, name@, j) implies value_digits(s@, j + m)
        <= digits by {
        if j >= n {
            // A name that stands at the very end is empty, and nothing
            // follows it.
            assert(m == 0 && j == n);
            reveal_with_fuel(skip_spaces, 1);
        }
    }
    true
}

/// The count of a name grows with the stretch that is searched.
proof fn lemma_count_grows(s: Seq<char>, name: Seq<char>, a: int, b: int)
    requires
        a <= b,
    ensures
        count_names(s, name, a) <= count_names(s, name, b),
    decreases b - a,
{
    if a < b {
        lemma_count_grows(s, name, a, b - 1);
    }
}

/// A name stands in a stretch at most as often as the stretch is long.
proof fn lemma_count_is_small(s: Seq<char>, name: Seq<char>, upto: int)
    requires
        0 <= upto,
    ensures
        count_names(s, name, upto) <= upto,
    decreases upto,
{
    if upto > 0 {
        lemma_count_is_small(s, name, upto - 1);
    }
}

/// Whether the text can be rendered.
pub fn is_safe_to_render(s: &Vec<char>) -> (r: bool)
    ensures
        r == renders_safely(s@),
{
    let colspan = crate::text::chars_of("colspan");
    let start = crate::text::chars_of("start");
    proof {
        lemma_count_is_small(s@, start@, s.len() as int);
    }
    name_within(s, &colspan, COLSPAN_DIGITS, COLSPAN_COUNT) && name_within(
        s,
        &start,
        START_DIGITS,
        usize::MAX,
    )
}

} // verus!
