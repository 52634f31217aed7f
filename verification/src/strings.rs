//! Character-level helpers shared by the scanners: strings as vectors of
//! code points, ASCII case folding, comparison with a literal.

use vstd::prelude::*;

verus! {

/// `String::push` of the standard library: appends the one character `ch`
/// to the end of the string and changes nothing else.
pub assume_specification[ String::push ](s: &mut String, ch: char)
    ensures
        final(s)@ == old(s)@.push(ch),
;

/// The ASCII lower-case form of `c`: `A`–`Z` move to `a`–`z`, every other
/// code point stays.
pub open spec fn to_ascii_lowercase(c: char) -> char {
    if 'A' <= c <= 'Z' {
        ((c as u8) + 32) as char
    } else {
        c
    }
}

/// Whether two code points are equal up to ASCII case.
pub open spec fn eq_ignore_ascii_case(a: char, b: char) -> bool {
    to_ascii_lowercase(a) == to_ascii_lowercase(b)
}

/// Whether two texts are equal up to ASCII case.
pub open spec fn text_eq_ignore_ascii_case(a: Seq<char>, b: Seq<char>) -> bool {
    &&& a.len() == b.len()
    &&& forall|i: int| 0 <= i < a.len() ==> eq_ignore_ascii_case(#[trigger] a[i], b[i])
}

/// `s` with every code point in ASCII lower case.
pub open spec fn ascii_lowercased(s: Seq<char>) -> Seq<char> {
    Seq::new(s.len(), |i: int| to_ascii_lowercase(s[i]))
}

/// ASCII digits and letters.
pub open spec fn is_ascii_alphanumeric(c: char) -> bool {
    ('0' <= c <= '9') || ('A' <= c <= 'Z') || ('a' <= c <= 'z')
}

/// The ASCII lower-case form of `c`.
pub fn ascii_lowercase(c: char) -> (lower: char)
    ensures
        lower == to_ascii_lowercase(c),
{
    if c >= 'A' && c <= 'Z' {
        ((c as u8) + 32) as char
    } else {
        c
    }
}

/// Whether `a` and `b` are equal up to ASCII case.
pub fn same_ignoring_ascii_case(a: char, b: char) -> (same: bool)
    ensures
        same == eq_ignore_ascii_case(a, b),
{
    ascii_lowercase(a) == ascii_lowercase(b)
}

/// Whether `c` is an ASCII digit or letter.
pub fn ascii_alphanumeric(c: char) -> (yes: bool)
    ensures
        yes == is_ascii_alphanumeric(c),
{
    (c >= '0' && c <= '9') || (c >= 'A' && c <= 'Z') || (c >= 'a' && c <= 'z')
}

/// The code points of `s`, in order, with constant-time indexing.
pub fn chars_of(s: &str) -> (chars: Vec<char>)
    ensures
        chars@ == s@,
{
    let mut chars: Vec<char> = Vec::new();
    for c in it: s.chars()
        invariant
            chars@ == it.seq().take(it.index()),
    {
        chars.push(c);
    }
    chars
}

/// Whether the code points `chars` spell exactly the string `word`.
pub fn spells(chars: &Vec<char>, word: &str) -> (same: bool)
    ensures
        same == (chars@ == word@),
{
    let mut i: usize = 0;
    for c in it: word.chars()
        invariant
            i == it.index(),
            i <= chars.len(),
            it.seq() == word@,
            forall|j: int| 0 <= j < i ==> chars@[j] == word@[j],
    {
        if i >= chars.len() || chars[i] != c {
            return false;
        }
        i += 1;
    }
    if i == chars.len() {
        assert(chars@ =~= word@);
        true
    } else {
        false
    }
}

} // verus!
