//! Numbers as text.

use vstd::prelude::*;

verus! {

/// The character of a decimal digit.
pub open spec fn digit(d: int) -> char {
    if d == 0 {
        '0'
    } else if d == 1 {
        '1'
    } else if d == 2 {
        '2'
    } else if d == 3 {
        '3'
    } else if d == 4 {
        '4'
    } else if d == 5 {
        '5'
    } else if d == 6 {
        '6'
    } else if d == 7 {
        '7'
    } else if d == 8 {
        '8'
    } else {
        '9'
    }
}

/// The decimal digits of a natural number, without leading zeros.
pub open spec fn decimal(n: nat) -> Seq<char>
    decreases n,
{
    if n < 10 {
        seq![digit(n as int)]
    } else {
        decimal(n / 10).push(digit((n % 10) as int))
    }
}

/// The decimal digits of an integer, behind a minus sign where it is negative.
pub open spec fn signed_decimal(n: int) -> Seq<char> {
    if n < 0 {
        seq!['-'] + decimal((-n) as nat)
    } else {
        decimal(n as nat)
    }
}

/// `s` behind as many spaces as it takes to fill `width` characters.
pub open spec fn padded(s: Seq<char>, width: nat) -> Seq<char> {
    if s.len() < width {
        Seq::new((width - s.len()) as nat, |i: int| ' ') + s
    } else {
        s
    }
}

/// The parts of the text `s` between the characters `sep` in it: one more than
/// there are such characters.
pub open spec fn split_at(s: Seq<char>, sep: char) -> Seq<Seq<char>>
    decreases s.len(),
{
    if s.len() == 0 {
        seq![Seq::<char>::empty()]
    } else if s.last() == sep {
        split_at(s.drop_last(), sep).push(Seq::<char>::empty())
    } else {
        let parts = split_at(s.drop_last(), sep);
        parts.update(parts.len() - 1, parts.last().push(s.last()))
    }
}

/// A text has at least one part.
pub proof fn lemma_split_at_len(s: Seq<char>, sep: char)
    ensures
        split_at(s, sep).len() >= 1,
    decreases s.len(),
{
    if s.len() > 0 {
        lemma_split_at_len(s.drop_last(), sep);
    }
}

/// The texts of `parts`.
pub open spec fn texts(parts: Seq<String>) -> Seq<Seq<char>> {
    parts.map_values(|p: String| p@)
}

/// A text in lower case, as std's `str::to_lowercase` gives it.
pub uninterp spec fn lowercase(s: Seq<char>) -> Seq<char>;

/// std's `str::to_lowercase`: the text in lower case.
#[verifier::external_body]
pub(crate) fn to_lower(s: &str) -> (r: String)
    ensures
        r@ == lowercase(s@),
{
    s.to_lowercase()
}

/// std's comparison of two texts: whether they hold the same characters.
#[verifier::external_body]
pub(crate) fn text_is(a: &str, b: &str) -> (r: bool)
    ensures
        r == (a@ == b@),
{
    a == b
}

/// std's `str::split` at the character `:`: the parts of the text between its
/// colons, of which there is one more than there are colons.
#[verifier::external_body]
pub(crate) fn split_colons(s: &str) -> (parts: Vec<String>)
    ensures
        texts(parts@) == split_at(s@, ':'),
{
    s.split(':').map(|part| part.to_string()).collect()
}

/// std's formatting of a 32-bit integer in a field at least three characters
/// wide: its decimal digits with their sign, behind spaces where they are fewer
/// than three.
#[verifier::external_body]
pub(crate) fn integer_in_three(n: i32) -> (r: String)
    ensures
        r@ == padded(signed_decimal(n as int), 3),
{
    format!("{:3}", n)
}

/// std's formatting of an index: its decimal digits.
#[verifier::external_body]
pub(crate) fn index_text(n: usize) -> (r: String)
    ensures
        r@ == decimal(n as nat),
{
    format!("{}", n)
}

} // verus!
