//! The outside hex codecs behind this library. Nothing here is proved: each
//! contract restates what the codec's documentation and source promise.

use crate::digits::{bytes_as_chars, is_digit_pairs, is_hex_digit, lower_hex, pairs_to_bytes};
use vstd::prelude::*;

verus! {

/// The words in which `faster_hex::hex_decode` refuses `src`, as its error's
/// `Display` writes them, when the destination has room for the whole
/// output. Meaningful only for a `src` that is refused.
pub uninterp spec fn fault_text(src: Seq<u8>) -> Seq<char>;

/// Whether `index` is the offset of the first byte of `src` that is no
/// hexadecimal digit.
pub open spec fn is_first_bad_digit(src: Seq<u8>, index: int) -> bool {
    &&& 0 <= index < src.len()
    &&& !is_hex_digit(src[index] as char)
    &&& forall|j: int| 0 <= j < index ==> is_hex_digit(#[trigger] src[j] as char)
}

/// `hex::encode`: the lowercase hexadecimal digits of `data`, two for each
/// byte, in order, with nothing between them. The string has twice the
/// length of `data`, which therefore has to fit an allocation.
#[verifier::external_body]
pub(crate) fn hex_encode(data: &[u8]) -> (digits: String)
    requires
        2 * data@.len() <= isize::MAX,
    ensures
        digits@ == lower_hex(data@),
{
    hex::encode(data)
}

/// `faster_hex::hex_decode` into a destination of exactly half the length of
/// `src`. It succeeds if and only if `src` is an even number of ASCII
/// hexadecimal digits of either case, and then fills `dst` with one byte for
/// each pair. It checks the length first and the digits second: an odd
/// length is reported without a position, a bad digit with the offset and
/// value of the first one. The error's `Display` text comes with it.
#[verifier::external_body]
pub(crate) fn hex_decode(src: &[u8], dst: &mut Vec<u8>) -> (outcome: Result<
    (),
    (Option<(usize, u8)>, String),
>)
    requires
        old(dst)@.len() == src@.len() / 2,
    ensures
        final(dst)@.len() == old(dst)@.len(),
        outcome is Ok <==> is_digit_pairs(bytes_as_chars(src@)),
        outcome is Ok ==> final(dst)@ == pairs_to_bytes(bytes_as_chars(src@)),
        outcome matches Err((bad, text)) ==> {
            &&& text@ == fault_text(src@)
            &&& (bad is None <==> src@.len() % 2 == 1)
            &&& (bad matches Some((index, byte)) ==> is_first_bad_digit(src@, index as int)
                && byte == src@[index as int])
        },
{
    match faster_hex::hex_decode(src, dst.as_mut_slice()) {
        Ok(_) => Ok(()),
        Err(e) => {
            let bad = match e {
                faster_hex::Error::InvalidChar { index, byte, .. } => Some((index, byte)),
                _ => None,
            };
            Err((bad, e.to_string()))
        },
    }
}

} // verus!
