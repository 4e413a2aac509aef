//! Trimming of white space and of punctuation from both ends of a text.

use crate::text::chars_of;
use vstd::prelude::*;

verus! {

/// The kinds of characters that are trimmed.
#[derive(Clone, Copy, PartialEq, Eq, Structural)]
pub enum CharClass {
    /// The Unicode `White_Space` property.
    White,
    /// The separators that a device name may hold inside, but not at its start.
    NameSeparator,
}

/// The characters with the Unicode `White_Space` property.
pub open spec fn is_white(c: char) -> bool {
    ||| '\u{9}' <= c <= '\u{d}'
    ||| c == ' '
    ||| c == '\u{85}'
    ||| c == '\u{a0}'
    ||| c == '\u{1680}'
    ||| '\u{2000}' <= c <= '\u{200a}'
    ||| c == '\u{2028}'
    ||| c == '\u{2029}'
    ||| c == '\u{202f}'
    ||| c == '\u{205f}'
    ||| c == '\u{3000}'
}

/// `-`, `_` and `.`.
pub open spec fn is_name_separator(c: char) -> bool {
    c == '-' || c == '_' || c == '.'
}

impl CharClass {
    /// `c` belongs to the class.
    pub open spec fn has(self, c: char) -> bool {
        match self {
            CharClass::White => is_white(c),
            CharClass::NameSeparator => is_name_separator(c),
        }
    }

    /// Whether `c` belongs to the class.
    pub fn matches_char(self, c: char) -> (r: bool)
        ensures
            r == self.has(c),
    {
        match self {
            CharClass::White => is_white_space(c),
            CharClass::NameSeparator => c == '-' || c == '_' || c == '.',
        }
    }
}

/// Whether `c` has the Unicode `White_Space` property.
pub fn is_white_space(c: char) -> (r: bool)
    ensures
        r == is_white(c),
{
    ('\u{9}' <= c && c <= '\u{d}') || c == ' ' || c == '\u{85}' || c == '\u{a0}' || c == '\u{1680}'
        || ('\u{2000}' <= c && c <= '\u{200a}') || c == '\u{2028}' || c == '\u{2029}' || c
        == '\u{202f}' || c == '\u{205f}' || c == '\u{3000}'
}

/// `s` without its longest prefix made of characters of the class.
pub open spec fn trimmed_start(s: Seq<char>, class: CharClass) -> Seq<char>
    decreases s.len(),
{
    if s.len() > 0 && class.has(s.first()) {
        trimmed_start(s.drop_first(), class)
    } else {
        s
    }
}

/// `s` without its longest suffix made of characters of the class.
pub open spec fn trimmed_end(s: Seq<char>, class: CharClass) -> Seq<char>
    decreases s.len(),
{
    if s.len() > 0 && class.has(s.last()) {
        trimmed_end(s.drop_last(), class)
    } else {
        s
    }
}

/// `s` without the characters of the class at either end.
pub open spec fn trimmed(s: Seq<char>, class: CharClass) -> Seq<char> {
    trimmed_end(trimmed_start(s, class), class)
}

/// What remains after trimming is a contiguous part of the text, everything cut off belongs to
/// the class, and neither end of a non-empty remainder does.
pub proof fn lemma_trimmed(s: Seq<char>, class: CharClass) -> (r: (int, int))
    ensures
        0 <= r.0 <= r.1 <= s.len(),
        trimmed(s, class) == s.subrange(r.0, r.1),
        forall|i: int| 0 <= i < r.0 ==> class.has(#[trigger] s[i]),
        forall|i: int| r.1 <= i < s.len() ==> class.has(#[trigger] s[i]),
        trimmed(s, class).len() > 0 ==> !class.has(trimmed(s, class).first()) && !class.has(
            trimmed(s, class).last(),
        ),
{
    let lo = lemma_trimmed_start(s, class);
    let t = trimmed_start(s, class);
    let hi = lemma_trimmed_end(t, class);
    assert(trimmed(s, class) =~= s.subrange(lo, lo + hi));
    assert forall|i: int| lo + hi <= i < s.len() implies class.has(#[trigger] s[i]) by {
        assert(t[i - lo] == s[i]);
    }
    if hi > 0 {
        assert(trimmed(s, class).first() == t.first());
    }
    (lo, lo + hi)
}

proof fn lemma_trimmed_start(s: Seq<char>, class: CharClass) -> (lo: int)
    ensures
        0 <= lo <= s.len(),
        trimmed_start(s, class) == s.subrange(lo, s.len() as int),
        forall|i: int| 0 <= i < lo ==> class.has(#[trigger] s[i]),
        trimmed_start(s, class).len() > 0 ==> !class.has(trimmed_start(s, class).first()),
    decreases s.len(),
{
    if s.len() > 0 && class.has(s.first()) {
        let r = lemma_trimmed_start(s.drop_first(), class);
        assert(s.drop_first().subrange(r, s.len() - 1) =~= s.subrange(r + 1, s.len() as int));
        assert forall|i: int| 0 <= i < r + 1 implies class.has(#[trigger] s[i]) by {
            if i > 0 {
                assert(s.drop_first()[i - 1] == s[i]);
            }
        }
        r + 1
    } else {
        assert(s.subrange(0, s.len() as int) =~= s);
        0
    }
}

proof fn lemma_trimmed_end(s: Seq<char>, class: CharClass) -> (hi: int)
    ensures
        0 <= hi <= s.len(),
        trimmed_end(s, class) == s.subrange(0, hi),
        forall|i: int| hi <= i < s.len() ==> class.has(#[trigger] s[i]),
        trimmed_end(s, class).len() > 0 ==> !class.has(trimmed_end(s, class).last()),
    decreases s.len(),
{
    if s.len() > 0 && class.has(s.last()) {
        let r = lemma_trimmed_end(s.drop_last(), class);
        assert(s.drop_last().subrange(0, r) =~= s.subrange(0, r));
        assert forall|i: int| r <= i < s.len() implies class.has(#[trigger] s[i]) by {
            if i < s.len() - 1 {
                assert(s.drop_last()[i] == s[i]);
            }
        }
        r
    } else {
        assert(s.subrange(0, s.len() as int) =~= s);
        s.len() as int
    }
}

/// `s` without the characters of the class at either end, as a list of characters.
pub fn trim_chars(v: &Vec<char>, class: CharClass) -> (r: Vec<char>)
    ensures
        r@ == trimmed(v@, class),
{
    let mut lo: usize = 0;
    assert(v@.subrange(0, v@.len() as int) =~= v@);
    while lo < v.len() && class.matches_char(v[lo])
        invariant
            lo <= v.len(),
            trimmed_start(v@, class) == trimmed_start(
                v@.subrange(lo as int, v@.len() as int),
                class,
            ),
        decreases v.len() - lo,
    {
        assert(v@.subrange(lo as int, v@.len() as int).drop_first() =~= v@.subrange(
            lo + 1,
            v@.len() as int,
        ));
        lo += 1;
    }
    let ghost t = v@.subrange(lo as int, v@.len() as int);
    assert(trimmed_start(v@, class) == t);
    let mut hi: usize = v.len();
    while hi > lo && class.matches_char(v[hi - 1])
        invariant
            lo <= hi <= v.len(),
            t == v@.subrange(lo as int, v@.len() as int),
            trimmed_end(t, class) == trimmed_end(v@.subrange(lo as int, hi as int), class),
        decreases hi,
    {
        assert(v@.subrange(lo as int, hi as int).drop_last() =~= v@.subrange(
            lo as int,
            hi - 1,
        ));
        hi -= 1;
    }
    let mut r: Vec<char> = Vec::new();
    let mut i: usize = lo;
    while i < hi
        invariant
            lo <= i <= hi <= v.len(),
            r@ == v@.subrange(lo as int, i as int),
        decreases hi - i,
    {
        r.push(v[i]);
        i += 1;
        assert(r@ =~= v@.subrange(lo as int, i as int));
    }
    r
}

/// `s` without the white space at either end.
pub fn trim(s: &str) -> (r: String)
    ensures
        r@ == trimmed(s@, CharClass::White),
{
    let v = chars_of(s);
    let t = trim_chars(&v, CharClass::White);
    crate::text::string_of(&t)
}

/// Trimming takes away what belongs to the class at either end, all of it, and nothing else.
pub proof fn law_trimming_leaves_the_middle(
    front: Seq<char>,
    middle: Seq<char>,
    back: Seq<char>,
    class: CharClass,
)
    requires
        forall|i: int| 0 <= i < front.len() ==> class.has(#[trigger] front[i]),
        forall|i: int| 0 <= i < back.len() ==> class.has(#[trigger] back[i]),
        middle.len() > 0 ==> !class.has(middle.first()) && !class.has(middle.last()),
    ensures
        trimmed(front + middle + back, class) == middle,
{
    let s = front + middle + back;
    let (lo, hi) = lemma_trimmed(s, class);
    let m = front.len() as int;
    let n = m + middle.len();
    if middle.len() > 0 {
        assert(s[m] == middle.first());
        assert(s[n - 1] == middle.last());
        assert(lo <= m && n <= hi);
        if lo < m {
            assert(trimmed(s, class).first() == s[lo]);
            assert(s[lo] == front[lo]);
        }
        if hi > n {
            assert(trimmed(s, class).last() == s[hi - 1]);
            assert(s[hi - 1] == back[hi - 1 - n]);
        }
        assert(s.subrange(m, n) =~= middle);
    } else if lo < hi {
        assert(trimmed(s, class).first() == s[lo]);
        if lo < m {
            assert(s[lo] == front[lo]);
        } else {
            assert(s[lo] == back[lo - n]);
        }
    }
    assert(trimmed(s, class) =~= middle);
}

/// Spaces, tabs and line ends are white, and so are the spaces of Unicode; no visible ASCII
/// character is. Hyphens, underscores and dots separate the parts of a name; no letter and no digit
/// does.
pub proof fn law_classes_of_common_characters(c: char)
    ensures
        CharClass::White.has(c) <==> seq![
            0x9u32, 0xa, 0xb, 0xc, 0xd, 0x20, 0x85, 0xa0, 0x1680, 0x2000, 0x2001, 0x2002, 0x2003,
            0x2004, 0x2005, 0x2006, 0x2007, 0x2008, 0x2009, 0x200a, 0x2028, 0x2029, 0x202f, 0x205f,
            0x3000,
        ].contains(c as u32),
        c == ' ' || c == '\t' || c == '\n' || c == '\r' ==> CharClass::White.has(c),
        '!' <= c <= '~' ==> !CharClass::White.has(c),
        CharClass::NameSeparator.has(c) <==> c == '-' || c == '_' || c == '.',
{
    let white = seq![
        0x9u32, 0xa, 0xb, 0xc, 0xd, 0x20, 0x85, 0xa0, 0x1680, 0x2000, 0x2001, 0x2002, 0x2003,
        0x2004, 0x2005, 0x2006, 0x2007, 0x2008, 0x2009, 0x200a, 0x2028, 0x2029, 0x202f, 0x205f,
        0x3000,
    ];
    let v = c as u32;
    if CharClass::White.has(c) {
        let i: int = if v <= 0xd {
            v as int - 9
        } else if 0x2000 <= v <= 0x200a {
            v as int - 0x2000 + 9
        } else if v == 0x20 {
            5
        } else if v == 0x85 {
            6
        } else if v == 0xa0 {
            7
        } else if v == 0x1680 {
            8
        } else if v == 0x2028 {
            20
        } else if v == 0x2029 {
            21
        } else if v == 0x202f {
            22
        } else if v == 0x205f {
            23
        } else {
            24
        };
        assert(white[i] == v);
    }
}

} // verus!
