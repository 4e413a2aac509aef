//! Letter case.

use crate::text::chars_of;
use vstd::prelude::*;
use vstd::utf8::is_ascii_chars;

verus! {

/// The lowercase form of an ASCII letter, and any other character as it is.
pub open spec fn ascii_lower(c: char) -> char {
    if 'A' <= c <= 'Z' {
        ((c as u32) + 32) as char
    } else {
        c
    }
}

/// The uppercase form of an ASCII letter, and any other character as it is.
pub open spec fn ascii_upper(c: char) -> char {
    if 'a' <= c <= 'z' {
        ((c as u32) - 32) as char
    } else {
        c
    }
}

/// `s` with its ASCII letters in lowercase.
pub open spec fn ascii_lowered(s: Seq<char>) -> Seq<char> {
    s.map_values(|c: char| ascii_lower(c))
}

/// `s` with its ASCII letters in uppercase.
pub open spec fn ascii_uppered(s: Seq<char>) -> Seq<char> {
    s.map_values(|c: char| ascii_upper(c))
}

/// The lowercase form that `str::to_lowercase` gives to a text.
pub uninterp spec fn lowercase(s: Seq<char>) -> Seq<char>;

/// The uppercase form that `str::to_uppercase` gives to a text.
pub uninterp spec fn uppercase(s: Seq<char>) -> Seq<char>;

/// Calls `str::to_lowercase`.
///
/// Claimed: the result depends on the text alone, under the name [`lowercase`], and in ASCII text
/// exactly the letters `A` to `Z` change.
#[verifier::external_body]
pub(crate) fn to_lowercase(s: &str) -> (r: String)
    ensures
        r@ == lowercase(s@),
        is_ascii_chars(s@) ==> r@ == ascii_lowered(s@),
{
    s.to_lowercase()
}

/// Calls `str::to_uppercase`.
///
/// Claimed: the result depends on the text alone, under the name [`uppercase`], and in ASCII text
/// exactly the letters `a` to `z` change.
#[verifier::external_body]
pub(crate) fn to_uppercase(s: &str) -> (r: String)
    ensures
        r@ == uppercase(s@),
        is_ascii_chars(s@) ==> r@ == ascii_uppered(s@),
{
    s.to_uppercase()
}

/// The lowercase form of an ASCII letter, and any other character as it is.
pub fn to_ascii_lower(c: char) -> (r: char)
    ensures
        r == ascii_lower(c),
{
    if 'A' <= c && c <= 'Z' {
        ((c as u8) + 32) as char
    } else {
        c
    }
}

/// Whether two texts are equal but for the case of their ASCII letters.
pub fn eq_ignore_ascii_case(a: &str, b: &str) -> (r: bool)
    ensures
        r == (ascii_lowered(a@) == ascii_lowered(b@)),
{
    let v = chars_of(a);
    let w = chars_of(b);
    if v.len() != w.len() {
        assert(ascii_lowered(a@).len() != ascii_lowered(b@).len());
        return false;
    }
    let mut i: usize = 0;
    while i < v.len()
        invariant
            i <= v.len(),
            v.len() == w.len(),
            v@ == a@,
            w@ == b@,
            forall|j: int| 0 <= j < i ==> ascii_lower(#[trigger] v@[j]) == ascii_lower(w@[j]),
        decreases v.len() - i,
    {
        if to_ascii_lower(v[i]) != to_ascii_lower(w[i]) {
            assert(ascii_lowered(a@)[i as int] != ascii_lowered(b@)[i as int]);
            return false;
        }
        i += 1;
    }
    assert(ascii_lowered(a@) =~= ascii_lowered(b@));
    true
}

/// Letters differ from each other in case by their place in the alphabet alone; all else has no
/// case.
pub proof fn law_ascii_case(c: char, n: int)
    ensures
        0 <= n < 26 ==> ascii_lower(('A' as u32 + n) as char) == ('a' as u32 + n) as char,
        0 <= n < 26 ==> ascii_upper(('a' as u32 + n) as char) == ('A' as u32 + n) as char,
        !('A' <= c <= 'Z') ==> ascii_lower(c) == c,
        !('a' <= c <= 'z') ==> ascii_upper(c) == c,
{
}

/// Changing the case of a text changes each of its characters in place.
pub proof fn law_case_is_changed_in_place(s: Seq<char>, i: int)
    requires
        0 <= i < s.len(),
    ensures
        ascii_lowered(s).len() == s.len(),
        ascii_uppered(s).len() == s.len(),
        ascii_lowered(s)[i] == ascii_lower(s[i]),
        ascii_uppered(s)[i] == ascii_upper(s[i]),
{
}

} // verus!
