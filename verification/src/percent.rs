//! Percent-encoded text.

use vstd::prelude::*;
use vstd::utf8::{
    decode_utf8, encode_scalar, encode_utf8, encode_utf8_decode_utf8, encode_utf8_valid_utf8,
    valid_utf8,
};

verus! {

/// `c` is a hexadecimal digit.
pub open spec fn is_hex_digit(c: char) -> bool {
    '0' <= c <= '9' || 'a' <= c <= 'f' || 'A' <= c <= 'F'
}

/// The value of a hexadecimal digit.
pub open spec fn hex_value(c: char) -> int {
    if '0' <= c <= '9' {
        c as int - '0' as int
    } else if 'a' <= c <= 'f' {
        c as int - 'a' as int + 10
    } else {
        c as int - 'A' as int + 10
    }
}

/// The bytes that a piece of a form stands for: a plus sign is a space, a percent sign in front of
/// two hexadecimal digits is the byte that they give, and all else stands for itself.
pub open spec fn form_bytes(s: Seq<char>) -> Seq<u8>
    decreases s.len(),
{
    if s.len() == 0 {
        Seq::empty()
    } else if s[0] == '%' && s.len() >= 3 && is_hex_digit(s[1]) && is_hex_digit(s[2]) {
        seq![(hex_value(s[1]) * 16 + hex_value(s[2])) as u8] + form_bytes(s.skip(3))
    } else if s[0] == '+' {
        seq![0x20u8] + form_bytes(s.drop_first())
    } else {
        encode_scalar(s[0] as u32) + form_bytes(s.drop_first())
    }
}

/// A piece of a form stands for a text.
pub open spec fn is_form_text(s: Seq<char>) -> bool {
    valid_utf8(form_bytes(s))
}

/// The text that a piece of a form stands for.
pub open spec fn form_text(s: Seq<char>) -> Seq<char> {
    decode_utf8(form_bytes(s))
}

/// A character that the component encoding of JavaScript leaves as it is.
pub open spec fn is_unreserved(c: char) -> bool {
    ||| 'a' <= c <= 'z'
    ||| 'A' <= c <= 'Z'
    ||| '0' <= c <= '9'
    ||| c == '-' || c == '_' || c == '.' || c == '!' || c == '~'
    ||| c == '*' || c == '\'' || c == '(' || c == ')'
}

/// The hexadecimal digit, in upper case, for a number below sixteen.
pub open spec fn hex_digit(n: int) -> char {
    "0123456789ABCDEF"@[n]
}

/// Some bytes, each as a percent sign and two hexadecimal digits.
pub open spec fn percent_encoded(bytes: Seq<u8>) -> Seq<char>
    decreases bytes.len(),
{
    if bytes.len() == 0 {
        Seq::empty()
    } else {
        seq!['%', hex_digit(bytes[0] as int / 16), hex_digit(bytes[0] as int % 16)]
            + percent_encoded(bytes.drop_first())
    }
}

/// What `encodeURIComponent` makes of a text.
pub open spec fn encoded_component(s: Seq<char>) -> Seq<char>
    decreases s.len(),
{
    if s.len() == 0 {
        Seq::empty()
    } else {
        (if is_unreserved(s[0]) {
            seq![s[0]]
        } else {
            percent_encoded(encode_scalar(s[0] as u32))
        }) + encoded_component(s.drop_first())
    }
}

/// A character that can stand in an encoded component.
pub open spec fn is_component_char(c: char) -> bool {
    is_unreserved(c) || c == '%'
}

proof fn lemma_hex_digit(n: int)
    requires
        0 <= n < 16,
    ensures
        is_hex_digit(hex_digit(n)),
        hex_value(hex_digit(n)) == n,
        is_unreserved(hex_digit(n)),
{
    reveal_strlit("0123456789ABCDEF");
}

/// Reading bytes back that were written as percent signs and digits.
proof fn lemma_percent_read_back(bytes: Seq<u8>, rest: Seq<char>)
    ensures
        form_bytes(percent_encoded(bytes) + rest) == bytes + form_bytes(rest),
        forall|i: int|
            0 <= i < percent_encoded(bytes).len() ==> is_component_char(
                #[trigger] percent_encoded(bytes)[i],
            ),
    decreases bytes.len(),
{
    if bytes.len() == 0 {
        assert(percent_encoded(bytes) + rest =~= rest);
        assert(bytes + form_bytes(rest) =~= form_bytes(rest));
    } else {
        let b = bytes[0] as int;
        let tail = percent_encoded(bytes.drop_first());
        lemma_percent_read_back(bytes.drop_first(), rest);
        lemma_hex_digit(b / 16);
        lemma_hex_digit(b % 16);
        let whole = percent_encoded(bytes) + rest;
        assert(whole[0] == '%');
        assert(whole[1] == hex_digit(b / 16));
        assert(whole[2] == hex_digit(b % 16));
        assert(whole.skip(3) =~= tail + rest);
        assert(b / 16 * 16 + b % 16 == b);
        assert(form_bytes(whole) == seq![bytes[0]] + form_bytes(tail + rest));
        assert(form_bytes(whole) =~= bytes + form_bytes(rest));
        assert forall|i: int| 0 <= i < percent_encoded(bytes).len() implies is_component_char(
            #[trigger] percent_encoded(bytes)[i],
        ) by {
            if i >= 3 {
                assert(percent_encoded(bytes)[i] == tail[i - 3]);
            }
        }
    }
}

/// A form reads an encoded component as the text that was encoded.
pub proof fn lemma_component_read_back(s: Seq<char>)
    ensures
        is_form_text(encoded_component(s)),
        form_text(encoded_component(s)) == s,
        forall|i: int|
            0 <= i < encoded_component(s).len() ==> is_component_char(
                #[trigger] encoded_component(s)[i],
            ),
{
    lemma_component_bytes(s);
    encode_utf8_valid_utf8(s);
    encode_utf8_decode_utf8(s);
}

proof fn lemma_component_bytes(s: Seq<char>)
    ensures
        form_bytes(encoded_component(s)) == encode_utf8(s),
        forall|i: int|
            0 <= i < encoded_component(s).len() ==> is_component_char(
                #[trigger] encoded_component(s)[i],
            ),
    decreases s.len(),
{
    if s.len() > 0 {
        let rest = encoded_component(s.drop_first());
        let whole = encoded_component(s);
        lemma_component_bytes(s.drop_first());
        if is_unreserved(s[0]) {
            assert(whole[0] == s[0]);
            assert(whole.drop_first() =~= rest);
            assert forall|i: int| 0 <= i < whole.len() implies is_component_char(
                #[trigger] whole[i],
            ) by {
                if i >= 1 {
                    assert(whole[i] == rest[i - 1]);
                }
            }
        } else {
            let e = percent_encoded(encode_scalar(s[0] as u32));
            lemma_percent_read_back(encode_scalar(s[0] as u32), rest);
            assert forall|i: int| 0 <= i < whole.len() implies is_component_char(
                #[trigger] whole[i],
            ) by {
                if i < e.len() {
                    assert(whole[i] == e[i]);
                } else {
                    assert(whole[i] == rest[i - e.len()]);
                }
            }
        }
    }
}

/// A form reads text without plus and percent signs as it is.
pub proof fn lemma_plain_form_text(s: Seq<char>)
    requires
        !s.contains('+'),
        !s.contains('%'),
    ensures
        is_form_text(s),
        form_text(s) == s,
{
    lemma_plain_form_bytes(s);
    encode_utf8_valid_utf8(s);
    encode_utf8_decode_utf8(s);
}

proof fn lemma_plain_form_bytes(s: Seq<char>)
    requires
        !s.contains('+'),
        !s.contains('%'),
    ensures
        form_bytes(s) == encode_utf8(s),
    decreases s.len(),
{
    if s.len() > 0 {
        let tail = s.drop_first();
        assert(s.contains(s[0]));
        assert forall|c: char| tail.contains(c) implies s.contains(c) by {
            let i = choose|i: int| 0 <= i < tail.len() && tail[i] == c;
            assert(s[i + 1] == c);
        }
        lemma_plain_form_bytes(tail);
    }
}

} // verus!
