//! Paths that are written as text.

use crate::paths::{is_absolute, is_name, DOT, SEPARATOR};
use crate::text::{lemma_split_join, lemma_split_nonempty, lemma_split_single, split};
use vstd::prelude::*;
use vstd::utf8::{
    encode_scalar, encode_utf8, encode_utf8_decode_utf8, is_ascii_chars, is_ascii_chars_encode_utf8,
};

verus! {

/// Encoding a text character by character.
proof fn lemma_encode_push(s: Seq<char>, c: char)
    ensures
        encode_utf8(s.push(c)) == encode_utf8(s) + encode_scalar(c as u32),
    decreases s.len(),
{
    let t = s.push(c);
    if s.len() == 0 {
        assert(t.drop_first() =~= Seq::empty());
        reveal_with_fuel(encode_utf8, 2);
        assert(encode_utf8(t) =~= encode_utf8(s) + encode_scalar(c as u32));
    } else {
        lemma_encode_push(s.drop_first(), c);
        assert(t.drop_first() =~= s.drop_first().push(c));
        assert(encode_utf8(t) =~= encode_utf8(s) + encode_scalar(c as u32));
    }
}

/// Only a slash is encoded with the byte of a slash.
proof fn lemma_encode_scalar_separator(c: char)
    ensures
        c == '/' ==> encode_scalar(c as u32) == seq![SEPARATOR],
        c != '/' ==> !encode_scalar(c as u32).contains(SEPARATOR),
        encode_scalar(c as u32).len() > 0,
{
    let v = c as u32;
    let e = encode_scalar(v);
    assert(v == 0x2f ==> ((v & 0x7f) as u8) == 0x2f) by (bit_vector);
    assert(v <= 0x7f && v != 0x2f ==> ((v & 0x7f) as u8) != 0x2f) by (bit_vector);
    if v <= 0x7f {
        assert(e.len() == 1);
        if c == '/' {
            assert(e =~= seq![SEPARATOR]);
        } else {
            assert(e[0] != SEPARATOR);
        }
    } else {
        assert(0xC0u8 | ((v >> 6) & 0x1F) as u8 >= 0x80) by (bit_vector);
        assert(0xE0u8 | ((v >> 12) & 0x0F) as u8 >= 0x80) by (bit_vector);
        assert(0xF0u8 | ((v >> 18) & 0x7) as u8 >= 0x80) by (bit_vector);
        assert(0x80u8 | (v & 0x3F) as u8 >= 0x80) by (bit_vector);
        assert(0x80u8 | ((v >> 6) & 0x3F) as u8 >= 0x80) by (bit_vector);
        assert(0x80u8 | ((v >> 12) & 0x3F) as u8 >= 0x80) by (bit_vector);
        assert(forall|i: int| 0 <= i < e.len() ==> #[trigger] e[i] != SEPARATOR);
    }
}

/// Text without a separator lengthens the last piece.
proof fn lemma_split_extend(b: Seq<u8>, t: Seq<u8>, sep: u8)
    requires
        !t.contains(sep),
    ensures
        split(b + t, sep) == split(b, sep).drop_last().push(split(b, sep).last() + t),
    decreases t.len(),
{
    lemma_split_nonempty(b, sep);
    let front = split(b, sep);
    if t.len() == 0 {
        assert(b + t =~= b);
        assert(front.last() + t =~= front.last());
        assert(front.drop_last().push(front.last()) =~= front);
    } else {
        let u = t.drop_last();
        assert forall|x: u8| u.contains(x) implies t.contains(x) by {
            let i = choose|i: int| 0 <= i < u.len() && u[i] == x;
            assert(t[i] == x);
        }
        lemma_split_extend(b, u, sep);
        assert((b + t).drop_last() =~= b + u);
        assert(t[t.len() - 1] == t.last());
        assert((b + t).last() == t.last());
        let mid = front.drop_last().push(front.last() + u);
        assert(mid.drop_last() =~= front.drop_last());
        assert((front.last() + u).push(t.last()) =~= front.last() + t);
    }
}

/// The pieces of an encoded path are the encoded pieces of the path.
pub proof fn lemma_split_encoded(s: Seq<char>)
    ensures
        split(encode_utf8(s), SEPARATOR) == split(s, '/').map_values(
            |piece: Seq<char>| encode_utf8(piece),
        ),
    decreases s.len(),
{
    let f = |piece: Seq<char>| encode_utf8(piece);
    if s.len() == 0 {
        assert(encode_utf8(s) =~= Seq::empty());
        assert(encode_utf8(Seq::<char>::empty()) =~= Seq::empty());
        assert(split(encode_utf8(s), SEPARATOR) =~= split(s, '/').map_values(f));
    } else {
        let front = s.drop_last();
        let c = s.last();
        assert(s =~= front.push(c));
        lemma_encode_push(front, c);
        lemma_split_encoded(front);
        lemma_encode_scalar_separator(c);
        lemma_split_nonempty(front, '/');
        let e = encode_utf8(front);
        let pieces = split(front, '/');
        if c == '/' {
            assert(encode_utf8(s) =~= e.push(SEPARATOR));
            assert(encode_utf8(s).drop_last() =~= e);
            assert(encode_utf8(Seq::<char>::empty()) =~= Seq::empty());
            assert(split(encode_utf8(s), SEPARATOR) =~= split(s, '/').map_values(f));
        } else {
            lemma_split_extend(e, encode_scalar(c as u32), SEPARATOR);
            lemma_encode_push(pieces.last(), c);
            assert(pieces.map_values(f).drop_last() =~= pieces.drop_last().map_values(f));
            assert(split(encode_utf8(s), SEPARATOR) =~= split(s, '/').map_values(f));
        }
    }
}

/// A dot is encoded as one byte, and two dots as two.
pub proof fn lemma_encode_dots()
    ensures
        encode_utf8("."@) == seq![DOT],
        encode_utf8(".."@) == seq![DOT, DOT],
{
    reveal_strlit(".");
    reveal_strlit("..");
    assert(is_ascii_chars("."@));
    assert(is_ascii_chars(".."@));
    is_ascii_chars_encode_utf8("."@);
    is_ascii_chars_encode_utf8(".."@);
    assert(encode_utf8("."@) =~= seq![DOT]);
    assert(encode_utf8(".."@) =~= seq![DOT, DOT]);
}

/// A text without a slash is a path of one piece. It names something exactly if it is neither empty
/// nor a dot, and it is the way up exactly if it is two dots.
pub proof fn lemma_single_name(s: Seq<char>)
    requires
        !s.contains('/'),
    ensures
        !encode_utf8(s).contains(SEPARATOR),
        is_name(encode_utf8(s)) == (s.len() > 0 && s != "."@),
        (encode_utf8(s) == seq![DOT, DOT]) == (s == ".."@),
{
    let bytes = encode_utf8(s);
    lemma_split_encoded(s);
    lemma_split_single(s, '/');
    lemma_split_join(bytes, SEPARATOR);
    assert(split(bytes, SEPARATOR) =~= seq![bytes]);
    if bytes.contains(SEPARATOR) {
        let i = choose|i: int| 0 <= i < bytes.len() && bytes[i] == SEPARATOR;
        assert(split(bytes, SEPARATOR)[0][i] == SEPARATOR);
    }
    lemma_encode_dots();
    encode_utf8_decode_utf8(s);
    encode_utf8_decode_utf8("."@);
    encode_utf8_decode_utf8(".."@);
    encode_utf8_decode_utf8(Seq::empty());
    if bytes.len() == 0 {
        assert(bytes =~= encode_utf8(Seq::empty()));
    }
}

/// A text is an absolute path exactly if it starts with a slash.
pub proof fn lemma_absolute_text(s: Seq<char>)
    ensures
        is_absolute(encode_utf8(s)) == (s.len() > 0 && s[0] == '/'),
{
    if s.len() > 0 {
        lemma_encode_scalar_separator(s[0]);
        let e = encode_scalar(s[0] as u32);
        assert(encode_utf8(s) == e + encode_utf8(s.drop_first()));
        assert(encode_utf8(s)[0] == e[0]);
        assert(e.contains(e[0]));
    }
}

} // verus!
