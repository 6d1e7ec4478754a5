//! Character and string operations of std that the lexer and parser rely on.
use vstd::prelude::*;

verus! {

/// Whether `c` has Unicode's `White_Space` property.
pub uninterp spec fn white_space(c: char) -> bool;

/// Whether `c` has Unicode's `Alphabetic` property.
pub uninterp spec fn alphabetic(c: char) -> bool;

/// Whether `c` is alphabetic or numeric in Unicode's sense.
pub uninterp spec fn alphanumeric(c: char) -> bool;

/// Relies on `char::is_whitespace`: true exactly for the characters with the
/// `White_Space` property.
#[verifier::external_body]
pub(crate) fn is_white_space(c: char) -> (r: bool)
    ensures
        r == white_space(c),
{
    c.is_whitespace()
}

/// Relies on `char::is_alphabetic`: true exactly for the characters with the
/// `Alphabetic` property.
#[verifier::external_body]
pub(crate) fn is_alphabetic_char(c: char) -> (r: bool)
    ensures
        r == alphabetic(c),
{
    c.is_alphabetic()
}

/// Relies on `char::is_alphanumeric`: true exactly for the characters that
/// are alphabetic or numeric.
#[verifier::external_body]
pub(crate) fn is_alphanumeric_char(c: char) -> (r: bool)
    ensures
        r == alphanumeric(c),
{
    c.is_alphanumeric()
}

/// Relies on `String`'s `FromIterator<&char>`: the string holds the
/// characters in the order given.
#[verifier::external_body]
pub(crate) fn string_from_chars(chars: &[char]) -> (r: String)
    ensures
        r@ == chars@,
{
    chars.iter().collect()
}

/// Whether the characters of `chars` are those of `word`.
pub(crate) fn chars_are(chars: &[char], word: &str) -> (r: bool)
    ensures
        r == (chars@ == word@),
{
    let n = word.unicode_len();
    if chars.len() != n {
        return false;
    }
    let mut i: usize = 0;
    while i < n
        invariant
            n == word@.len(),
            chars@.len() == n,
            i <= n,
            forall|j: int| 0 <= j < i ==> chars@[j] == word@[j],
        decreases n - i,
    {
        if chars[i] != word.get_char(i) {
            return false;
        }
        i = i + 1;
    }
    assert(chars@ =~= word@);
    true
}

} // verus!
