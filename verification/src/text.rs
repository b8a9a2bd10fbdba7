//! The text form of a byte string: `0x`, then two lowercase hexadecimal
//! digits for each byte. Reading accepts digits of either case.

use crate::backend::{fault_text, is_first_bad_digit};
use crate::digits::{
    bytes_as_chars, digit_value, is_digit_pairs, is_hex_digit, is_lower_hex_digit, lemma_lower_hex_pairs,
    lower_hex, pairs_to_bytes,
};
use crate::error::{invalid_hex_message, Failure, HexFault};
use vstd::prelude::*;
use vstd::utf8::encode_utf8;

verus! {

/// Whether `text` starts with the two characters `0x`.
pub open spec fn has_prefix(text: Seq<char>) -> bool {
    text.len() >= 2 && text[0] == '0' && text[1] == 'x'
}

/// The byte that writes `0`.
pub const ASCII_ZERO: u8 = 0x30;

/// The byte that writes `x`.
pub const ASCII_X: u8 = 0x78;

/// Whether `raw` starts with the two bytes that write `0x`.
pub open spec fn has_prefix_bytes(raw: Seq<u8>) -> bool {
    raw.len() >= 2 && raw[0] == ASCII_ZERO && raw[1] == ASCII_X
}

/// What follows the prefix.
pub open spec fn payload(text: Seq<char>) -> Seq<char> {
    text.skip(2)
}

/// The text form of `bytes`.
pub open spec fn encode_spec(bytes: Seq<u8>) -> Seq<char> {
    seq!['0', 'x'] + lower_hex(bytes)
}

/// The bytes that `text` stands for, if it stands for any: it has to start
/// with `0x` and go on with an even number of hexadecimal digits.
pub open spec fn decode_spec(text: Seq<char>) -> Option<Seq<u8>> {
    if has_prefix(text) && is_digit_pairs(payload(text)) {
        Some(pairs_to_bytes(payload(text)))
    } else {
        None
    }
}

/// Whether `text` is in the form that encoding produces: `0x`, then an even
/// number of lowercase hexadecimal digits.
pub open spec fn is_canonical(text: Seq<char>) -> bool {
    &&& has_prefix(text)
    &&& text.len() % 2 == 0
    &&& forall|i: int| 2 <= i < text.len() ==> is_lower_hex_digit(#[trigger] text[i])
}

/// Whether `fault` says what is wrong with the payload bytes `src`. An odd
/// length is reported before any digit is looked at.
pub open spec fn describes(fault: HexFault, src: Seq<u8>) -> bool {
    match fault {
        HexFault::OddLength => src.len() % 2 == 1,
        HexFault::InvalidDigit { index, byte } => {
            &&& src.len() % 2 == 0
            &&& is_first_bad_digit(src, index as int)
            &&& byte == src[index as int]
        },
    }
}

/// The bytes that the payload bytes `src` stand for, if they stand for any:
/// they have to be an even number of ASCII hexadecimal digits.
pub open spec fn decode_payload_spec(src: Seq<u8>) -> Option<Seq<u8>> {
    if is_digit_pairs(bytes_as_chars(src)) {
        Some(pairs_to_bytes(bytes_as_chars(src)))
    } else {
        None
    }
}

/// Whether `failure` is the error that the payload bytes `src` are refused
/// with.
pub open spec fn explains_payload(failure: Failure, src: Seq<u8>) -> bool {
    &&& failure matches Failure::InvalidHex { reason, message }
    &&& describes(reason, src)
    &&& message == invalid_hex_message(fault_text(src))
}

/// Whether `failure` is the error that `text` is refused with. The payload
/// is examined as the bytes of its UTF-8 encoding.
pub open spec fn explains(failure: Failure, text: Seq<char>) -> bool {
    match failure {
        Failure::MissingPrefix { value } => !has_prefix(text) && value == text,
        Failure::InvalidHex { .. } => {
            &&& has_prefix(text)
            &&& !is_digit_pairs(payload(text))
            &&& explains_payload(failure, encode_utf8(payload(text)))
        },
    }
}

/// `c` with an uppercase hexadecimal letter made lowercase.
pub open spec fn fold_digit(c: char) -> char {
    if 'A' <= c <= 'F' {
        (c as int - 'A' as int + 'a' as int) as char
    } else {
        c
    }
}

/// `text` with every uppercase hexadecimal letter made lowercase.
pub open spec fn fold_case(text: Seq<char>) -> Seq<char> {
    Seq::new(text.len(), |i: int| fold_digit(text[i]))
}

/// Encoding is canonical: the text of any bytes is `0x` followed by two
/// lowercase hexadecimal digits for each byte, and nothing else.
pub proof fn lemma_encode_is_canonical(bytes: Seq<u8>)
    ensures
        is_canonical(encode_spec(bytes)),
        encode_spec(bytes).len() == 2 + 2 * bytes.len(),
        payload(encode_spec(bytes)) == lower_hex(bytes),
{
    let text = encode_spec(bytes);
    lemma_lower_hex_pairs(bytes);
    assert(payload(text) =~= lower_hex(bytes));
    assert forall|i: int| 2 <= i < text.len() implies is_lower_hex_digit(#[trigger] text[i]) by {
        assert(text[i] == lower_hex(bytes)[i - 2]);
    }
}

/// Round trip: decoding the text of any bytes, the empty sequence included,
/// gives those bytes back.
pub proof fn lemma_round_trip(bytes: Seq<u8>)
    ensures
        decode_spec(encode_spec(bytes)) == Some(bytes),
{
    lemma_encode_is_canonical(bytes);
    lemma_lower_hex_pairs(bytes);
}

/// Encoding loses nothing: different bytes have different texts.
pub proof fn lemma_encode_is_injective(a: Seq<u8>, b: Seq<u8>)
    requires
        encode_spec(a) == encode_spec(b),
    ensures
        a == b,
{
    lemma_round_trip(a);
    lemma_round_trip(b);
}

/// A byte string built directly from `bytes` and one decoded from the text of
/// `bytes` hold the same bytes, so they have the same text.
pub proof fn lemma_direct_and_decoded_agree(bytes: Seq<u8>)
    ensures
        decode_spec(encode_spec(bytes)) is Some,
        encode_spec(decode_spec(encode_spec(bytes))->0) == encode_spec(bytes),
{
    lemma_round_trip(bytes);
}

/// A canonical text is the text of the bytes it decodes to, and of no others.
pub proof fn lemma_canonical_text_is_an_encoding(text: Seq<char>)
    requires
        is_canonical(text),
    ensures
        decode_spec(text) is Some,
        encode_spec(decode_spec(text)->0) == text,
{
    let digits = payload(text);
    assert forall|i: int| 0 <= i < digits.len() implies is_hex_digit(#[trigger] digits[i]) by {
        assert(digits[i] == text[i + 2]);
    }
    let bytes = pairs_to_bytes(digits);
    let again = encode_spec(bytes);
    assert forall|i: int| 0 <= i < text.len() implies again[i] == text[i] by {
        if i >= 2 {
            let k = (i - 2) / 2;
            let high = digits[2 * k];
            let low = digits[2 * k + 1];
            assert(high == text[2 * k + 2]);
            assert(low == text[2 * k + 3]);
            assert(is_lower_hex_digit(high) && is_lower_hex_digit(low));
            assert(bytes[k] == 16 * digit_value(high) + digit_value(low));
            assert(again[i] == lower_hex(bytes)[i - 2]);
        }
    }
    assert(again =~= text);
}

/// Decoding does not look at the case of the digits.
pub proof fn lemma_decode_ignores_case(text: Seq<char>)
    ensures
        decode_spec(fold_case(text)) == decode_spec(text),
{
    let folded = fold_case(text);
    assert(has_prefix(folded) <==> has_prefix(text));
    if has_prefix(text) {
        let digits = payload(text);
        let lowered = payload(folded);
        assert forall|i: int| 0 <= i < digits.len() implies (is_hex_digit(#[trigger] digits[i])
            <==> is_hex_digit(lowered[i])) && (is_hex_digit(digits[i]) ==> digit_value(digits[i])
            == digit_value(lowered[i])) by {
            lemma_fold_digit(text[i + 2]);
        }
        if is_digit_pairs(digits) {
            assert forall|i: int| 0 <= i < lowered.len() implies is_hex_digit(
                #[trigger] lowered[i],
            ) by {
                assert(is_hex_digit(digits[i]));
            }
            assert forall|k: int| 0 <= k < digits.len() / 2 implies pairs_to_bytes(lowered)[k]
                == pairs_to_bytes(digits)[k] by {
                assert(is_hex_digit(digits[2 * k]));
                assert(is_hex_digit(digits[2 * k + 1]));
            }
            assert(pairs_to_bytes(lowered) =~= pairs_to_bytes(digits));
        } else if is_digit_pairs(lowered) {
            assert forall|i: int| 0 <= i < digits.len() implies is_hex_digit(
                #[trigger] digits[i],
            ) by {
                assert(is_hex_digit(lowered[i]));
            }
        }
    }
}

/// Folding keeps digits digits, others others, and a digit's value.
pub proof fn lemma_fold_digit(c: char)
    ensures
        is_hex_digit(fold_digit(c)) <==> is_hex_digit(c),
        is_hex_digit(c) ==> digit_value(fold_digit(c)) == digit_value(c),
        is_hex_digit(c) ==> is_lower_hex_digit(fold_digit(c)),
        (fold_digit(c) == '0' <==> c == '0') && (fold_digit(c) == 'x' <==> c == 'x'),
{
}

/// A text is refused for one reason only.
pub proof fn lemma_one_explanation(text: Seq<char>, first: Failure, second: Failure)
    requires
        explains(first, text),
        explains(second, text),
    ensures
        first == second,
{
    if let Failure::InvalidHex { reason: a, .. } = first {
        if let Failure::InvalidHex { reason: b, .. } = second {
            let src = encode_utf8(payload(text));
            if let HexFault::InvalidDigit { index: i, byte: _ } = a {
                if let HexFault::InvalidDigit { index: j, byte: _ } = b {
                    if i < j {
                        assert(is_hex_digit(src[i as int] as char));
                    }
                    if j < i {
                        assert(is_hex_digit(src[j as int] as char));
                    }
                }
            }
        }
    }
}

} // verus!
