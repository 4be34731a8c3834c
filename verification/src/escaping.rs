//! What escaping guarantees: escaped text and escaped attribute values cannot hold
//! the characters that delimit markup, and neither can their UTF-8 bytes.
use crate::markup::{escape, escape_attribute, escape_attribute_char, escape_char, XmlEventSpec};
use vstd::prelude::*;
use vstd::utf8::{
    char_u32_cast, encode_scalar, encode_utf8, has_width_1_encoding, has_width_2_encoding, has_width_3_encoding,
};

verus! {

/// A character that escaped text never holds.
pub open spec fn is_markup_char(c: char) -> bool {
    c == '<' || c == '>' || c == '"' || c == '\'' || c == '\r'
}

/// A character that an escaped attribute value never holds.
pub open spec fn is_attribute_markup_char(c: char) -> bool {
    is_markup_char(c) || c == '\n' || c == '\t'
}

proof fn lemma_escape_char_excludes_markup(c: char)
    ensures
        forall|i: int|
            0 <= i < escape_attribute_char(c).len() ==> !is_attribute_markup_char(
                #[trigger] escape_attribute_char(c)[i],
            ),
        forall|i: int|
            0 <= i < escape_char(c).len() ==> !is_markup_char(#[trigger] escape_char(c)[i]),
{
    reveal_strlit("&lt;");
    reveal_strlit("&gt;");
    reveal_strlit("&amp;");
    reveal_strlit("&apos;");
    reveal_strlit("&quot;");
    reveal_strlit("&#13;");
    reveal_strlit("&#10;");
    reveal_strlit("&#9;");
}

/// Escaped text holds none of `<`, `>`, `"`, `'` or a carriage return, whatever the
/// text it was made from.
pub proof fn lemma_escape_excludes_markup(s: Seq<char>)
    ensures
        forall|i: int| 0 <= i < escape(s).len() ==> !is_markup_char(#[trigger] escape(s)[i]),
    decreases s.len(),
{
    if s.len() > 0 {
        lemma_escape_excludes_markup(s.drop_last());
        lemma_escape_char_excludes_markup(s.last());
        let a = escape(s.drop_last());
        let b = escape_char(s.last());
        assert forall|i: int| 0 <= i < escape(s).len() implies !is_markup_char(
            #[trigger] escape(s)[i],
        ) by {
            if i < a.len() {
                assert(escape(s)[i] == a[i]);
            } else {
                assert(escape(s)[i] == b[i - a.len()]);
            }
        }
    }
}

/// An escaped attribute value holds none of `<`, `>`, `"`, `'`, a carriage return,
/// a newline or a tab, whatever the value it was made from: it cannot end the quoted
/// value it stands in.
pub proof fn lemma_escape_attribute_excludes_markup(s: Seq<char>)
    ensures
        forall|i: int|
            0 <= i < escape_attribute(s).len() ==> !is_attribute_markup_char(
                #[trigger] escape_attribute(s)[i],
            ),
    decreases s.len(),
{
    if s.len() > 0 {
        lemma_escape_attribute_excludes_markup(s.drop_last());
        lemma_escape_char_excludes_markup(s.last());
        let a = escape_attribute(s.drop_last());
        let b = escape_attribute_char(s.last());
        assert forall|i: int| 0 <= i < escape_attribute(s).len() implies !is_attribute_markup_char(
            #[trigger] escape_attribute(s)[i],
        ) by {
            if i < a.len() {
                assert(escape_attribute(s)[i] == a[i]);
            } else {
                assert(escape_attribute(s)[i] == b[i - a.len()]);
            }
        }
    }
}

/// Every byte of the UTF-8 encoding of a scalar is the scalar itself when it is
/// ASCII, and at least 0x80 otherwise.
proof fn lemma_encode_scalar_bytes(s: u32)
    ensures
        forall|i: int|
            0 <= i < encode_scalar(s).len() ==> if s <= 0x7F {
                #[trigger] encode_scalar(s)[i] == s
            } else {
                encode_scalar(s)[i] >= 0x80
            },
{
    assert(s <= 0x7F ==> (s & 0x7F) as u8 == s) by (bit_vector);
    assert(forall|x: u8| #[trigger] (0x80u8 | x) >= 0x80u8) by (bit_vector);
    assert(forall|x: u8| #[trigger] (0xC0u8 | x) >= 0x80u8) by (bit_vector);
    assert(forall|x: u8| #[trigger] (0xE0u8 | x) >= 0x80u8) by (bit_vector);
    assert(forall|x: u8| #[trigger] (0xF0u8 | x) >= 0x80u8) by (bit_vector);
    if has_width_1_encoding(s) {
    } else if has_width_2_encoding(s) {
    } else if has_width_3_encoding(s) {
    } else {
    }
}

/// The UTF-8 encoding of characters none of which is the ASCII character `c` holds
/// no byte equal to `c`.
proof fn lemma_encode_utf8_excludes_ascii(chars: Seq<char>, c: char)
    requires
        (c as u32) <= 0x7F,
        forall|i: int| 0 <= i < chars.len() ==> chars[i] != c,
    ensures
        forall|j: int| 0 <= j < encode_utf8(chars).len() ==> #[trigger] encode_utf8(chars)[j] != (
        c as u8),
    decreases chars.len(),
{
    if chars.len() > 0 {
        let head = encode_scalar(chars[0] as u32);
        let rest = chars.drop_first();
        lemma_encode_scalar_bytes(chars[0] as u32);
        lemma_encode_utf8_excludes_ascii(rest, c);
        assert(chars[0] != c);
        char_u32_cast(chars[0], chars[0] as u32);
        char_u32_cast(c, c as u32);
        assert((chars[0] as u32) != (c as u32));
        assert forall|j: int| 0 <= j < encode_utf8(chars).len() implies #[trigger] encode_utf8(
            chars,
        )[j] != (c as u8) by {
            if j < head.len() {
                assert(encode_utf8(chars)[j] == head[j]);
            } else {
                assert(encode_utf8(chars)[j] == encode_utf8(rest)[j - head.len()]);
            }
        }
    }
}

/// The bytes written for character data hold neither `<` nor `>`, whatever the text:
/// text can never open or close an element.
pub proof fn lemma_text_bytes_exclude_angle_brackets(text: Seq<char>)
    ensures
        forall|j: int|
            0 <= j < encode_utf8(XmlEventSpec::Text(text).markup()).len() ==> {
                let b = #[trigger] encode_utf8(XmlEventSpec::Text(text).markup())[j];
                b != 0x3Cu8 && b != 0x3Eu8
            },
{
    let m = XmlEventSpec::Text(text).markup();
    lemma_escape_excludes_markup(text);
    assert(('<' as u32) == 0x3C);
    assert(('>' as u32) == 0x3E);
    lemma_encode_utf8_excludes_ascii(m, '<');
    lemma_encode_utf8_excludes_ascii(m, '>');
}

} // verus!
