//! How the UTF-8 bytes of a text relate to its characters. A character below
//! U+0080 is written as the one byte with its number, and every byte of any
//! other character is 0x80 or more, so ASCII bytes in the encoding are
//! ASCII characters in the text.

use crate::digits::{bytes_as_chars, is_digit_pairs};
use crate::text::{has_prefix, has_prefix_bytes};
use vstd::prelude::*;
use vstd::utf8::{
    encode_scalar, encode_utf8, has_width_1_encoding, has_width_2_encoding, has_width_3_encoding,
    is_ascii_chars, is_ascii_chars_encode_utf8,
};

verus! {

proof fn lemma_marked_bytes(low: u8)
    by (bit_vector)
    ensures
        0x80 | low >= 0x80,
        0xC0 | low >= 0x80,
        0xE0 | low >= 0x80,
        0xF0 | low >= 0x80,
{
}

proof fn lemma_low_scalar_byte(scalar: u32)
    by (bit_vector)
    requires
        scalar <= 0x7f,
    ensures
        (scalar & 0x7f) as u8 == scalar as u8,
        (scalar as u8) < 0x80,
{
}

/// The encoding of one character: its own number if that is below 0x80,
/// else one to four bytes that are all 0x80 or more.
pub proof fn lemma_scalar_bytes(c: char)
    ensures
        '\0' <= c,
        c <= '\u{7f}' ==> encode_scalar(c as u32) == seq![c as u8] && c as u8 as char == c,
        c > '\u{7f}' ==> forall|i: int|
            0 <= i < encode_scalar(c as u32).len() ==> #[trigger] encode_scalar(c as u32)[i]
                >= 0x80,
        1 <= encode_scalar(c as u32).len() <= 4,
{
    let scalar = c as u32;
    let bytes = encode_scalar(scalar);
    if has_width_1_encoding(scalar) {
        lemma_low_scalar_byte(scalar);
        assert(bytes =~= seq![c as u8]);
    } else {
        assert forall|i: int| 0 <= i < bytes.len() implies #[trigger] bytes[i] >= 0x80 by {
            if has_width_2_encoding(scalar) {
                lemma_marked_bytes(((scalar >> 6) & 0x1F) as u8);
                lemma_marked_bytes((scalar & 0x3F) as u8);
            } else if has_width_3_encoding(scalar) {
                lemma_marked_bytes(((scalar >> 12) & 0x0F) as u8);
                lemma_marked_bytes(((scalar >> 6) & 0x3F) as u8);
                lemma_marked_bytes((scalar & 0x3F) as u8);
            } else {
                lemma_marked_bytes(((scalar >> 18) & 0x7) as u8);
                lemma_marked_bytes(((scalar >> 12) & 0x3F) as u8);
                lemma_marked_bytes(((scalar >> 6) & 0x3F) as u8);
                lemma_marked_bytes((scalar & 0x3F) as u8);
            }
        }
    }
}

/// A text whose encoding holds only bytes below 0x80 holds only ASCII
/// characters.
pub proof fn lemma_low_bytes_are_ascii(text: Seq<char>)
    requires
        forall|i: int| 0 <= i < encode_utf8(text).len() ==> #[trigger] encode_utf8(text)[i] < 0x80,
    ensures
        is_ascii_chars(text),
    decreases text.len(),
{
    if text.len() > 0 {
        let head = encode_scalar(text[0] as u32);
        let rest = text.drop_first();
        let raw = encode_utf8(text);
        lemma_scalar_bytes(text[0]);
        assert(raw == head + encode_utf8(rest));
        assert(raw[0] == head[0]);
        assert forall|i: int| 0 <= i < encode_utf8(rest).len() implies #[trigger] encode_utf8(
            rest,
        )[i] < 0x80 by {
            assert(raw[head.len() + i] == encode_utf8(rest)[i]);
        }
        lemma_low_bytes_are_ascii(rest);
        assert forall|i: int| 0 <= i < text.len() implies '\0' <= #[trigger] text[i]
            <= '\u{7f}' by {
            if i > 0 {
                assert(text[i] == rest[i - 1]);
            }
        }
    }
}

/// An ASCII text is encoded character by character.
pub proof fn lemma_ascii_text_bytes(text: Seq<char>)
    requires
        is_ascii_chars(text),
    ensures
        bytes_as_chars(encode_utf8(text)) == text,
{
    is_ascii_chars_encode_utf8(text);
    let raw = encode_utf8(text);
    assert forall|i: int| 0 <= i < text.len() implies bytes_as_chars(raw)[i] == text[i] by {
        assert(raw[i] == text[i] as u8);
        assert('\0' <= text[i] <= '\u{7f}');
    }
    assert(bytes_as_chars(raw) =~= text);
}

/// A text starts with `0x` exactly when its encoding starts with the bytes of
/// `0x`, and what follows the prefix is then encoded by what follows those
/// two bytes.
pub proof fn lemma_prefix_bytes(text: Seq<char>)
    ensures
        has_prefix(text) <==> has_prefix_bytes(encode_utf8(text)),
        has_prefix(text) ==> encode_utf8(text).skip(2) == encode_utf8(text.skip(2)),
{
    let raw = encode_utf8(text);
    if text.len() == 0 {
        assert(raw.len() == 0);
    } else {
        let first = encode_scalar(text[0] as u32);
        let rest = text.drop_first();
        lemma_scalar_bytes(text[0]);
        assert(raw == first + encode_utf8(rest));
        assert(raw[0] == first[0]);
        if text[0] == '0' {
            assert(first =~= seq![0x30u8]);
            assert(raw.skip(1) =~= encode_utf8(rest));
            if rest.len() == 0 {
                assert(encode_utf8(rest).len() == 0);
                assert(raw.len() == 1);
            } else {
                let second = encode_scalar(rest[0] as u32);
                lemma_scalar_bytes(rest[0]);
                assert(encode_utf8(rest) == second + encode_utf8(rest.drop_first()));
                assert(raw[1] == second[0]);
                assert(rest[0] == text[1]);
                if text[1] == 'x' {
                    assert(second =~= seq![0x78u8]);
                    assert(rest.drop_first() =~= text.skip(2));
                    assert(raw.skip(2) =~= encode_utf8(text.skip(2)));
                } else {
                    assert(raw[1] != 0x78);
                }
            }
        } else {
            assert(raw[0] != 0x30);
        }
    }
}

/// A text is an even number of hexadecimal digits exactly when its encoding
/// is, and the encoding then holds the same digits.
pub proof fn lemma_digit_pairs_bytes(digits: Seq<char>)
    ensures
        is_digit_pairs(digits) <==> is_digit_pairs(bytes_as_chars(encode_utf8(digits))),
        is_digit_pairs(digits) ==> bytes_as_chars(encode_utf8(digits)) == digits,
{
    let raw = encode_utf8(digits);
    if is_digit_pairs(digits) {
        assert(is_ascii_chars(digits));
        lemma_ascii_text_bytes(digits);
    }
    if is_digit_pairs(bytes_as_chars(raw)) {
        assert forall|i: int| 0 <= i < raw.len() implies #[trigger] raw[i] < 0x80 by {
            assert(bytes_as_chars(raw)[i] == raw[i] as char);
        }
        lemma_low_bytes_are_ascii(digits);
        lemma_ascii_text_bytes(digits);
    }
}

} // verus!
