//! `Bytes`: an owned buffer of raw bytes, and its conversions to and from
//! text.

use crate::ascii::{lemma_digit_pairs_bytes, lemma_prefix_bytes};
use crate::backend::{hex_decode, hex_encode};
use crate::digits::{bytes_as_chars, pairs_to_bytes};
use crate::error::{DecodeError, HexFault};
use crate::text::{
    decode_payload_spec, decode_spec, encode_spec, explains, explains_payload, is_canonical,
    lemma_encode_is_canonical, lemma_round_trip, payload, ASCII_X, ASCII_ZERO,
};
use vstd::prelude::*;
use vstd::slice::slice_subrange;
use vstd::std_specs::cmp::PartialEqSpecImpl;
use vstd::std_specs::convert::FromSpecImpl;
use vstd::string::StringExecFns;

verus! {

/// Raw bytes. Any sequence of bytes is a valid value, the empty one included.
#[derive(Debug, Hash)]
pub struct Bytes(pub Vec<u8>);

impl View for Bytes {
    type V = Seq<u8>;

    open spec fn view(&self) -> Seq<u8> {
        self.0@
    }
}

impl Clone for Bytes {
    fn clone(&self) -> (copy: Self)
        ensures
            copy@ == self@,
    {
        Bytes(self.0.clone())
    }
}

impl Default for Bytes {
    fn default() -> (empty: Self)
        ensures
            empty@ == Seq::<u8>::empty(),
    {
        Bytes(Vec::new())
    }
}

impl PartialEq for Bytes {
    fn eq(&self, other: &Self) -> (same: bool) {
        let same = self.0 == other.0;
        proof {
            if same {
                assert(self.0@ =~= other.0@);
            }
        }
        same
    }
}

impl PartialEqSpecImpl for Bytes {
    open spec fn obeys_eq_spec() -> bool {
        true
    }

    open spec fn eq_spec(&self, other: &Self) -> bool {
        self@ == other@
    }
}

impl Eq for Bytes {

}

impl From<Vec<u8>> for Bytes {
    fn from(data: Vec<u8>) -> (bytes: Self) {
        Bytes(data)
    }
}

impl FromSpecImpl<Vec<u8>> for Bytes {
    open spec fn obeys_from_spec() -> bool {
        true
    }

    open spec fn from_spec(data: Vec<u8>) -> Self {
        Bytes(data)
    }
}

impl Bytes {
    /// The byte string that holds exactly `data`.
    pub fn from_owned(data: Vec<u8>) -> (bytes: Bytes)
        ensures
            bytes@ == data@,
            bytes.0 == data,
    {
        Bytes(data)
    }

    /// The byte string that holds a copy of `data`.
    pub fn from_borrowed(data: &[u8]) -> (bytes: Bytes)
        ensures
            bytes@ == data@,
    {
        let mut copy: Vec<u8> = Vec::new();
        copy.extend_from_slice(data);
        Bytes(copy)
    }

    /// The text form: `0x`, then two lowercase hexadecimal digits for each
    /// byte, in order. The empty byte string gives `0x`.
    ///
    /// The text has to fit an allocation, which limits the length of the
    /// byte string.
    pub fn encode(&self) -> (text: String)
        requires
            2 * self@.len() + 2 <= isize::MAX,
        ensures
            text@ == encode_spec(self@),
            is_canonical(text@),
            decode_spec(text@) == Some(self@),
    {
        let mut serialized = "0x".to_owned();
        let digits = hex_encode(self.0.as_slice());
        serialized.append(digits.as_str());
        proof {
            reveal_strlit("0x");
            assert(serialized@ =~= encode_spec(self@));
            lemma_encode_is_canonical(self@);
            lemma_round_trip(self@);
        }
        serialized
    }

    /// Reads a payload: the bytes that follow the prefix. Each pair of
    /// hexadecimal digits, of either case, gives one byte. The empty payload
    /// gives the empty byte string, and the decoder is not asked.
    pub fn decode_payload(digits: &[u8]) -> (result: Result<Bytes, DecodeError>)
        ensures
            match result {
                Ok(bytes) => decode_payload_spec(digits@) == Some(bytes@),
                Err(error) => decode_payload_spec(digits@) is None && explains_payload(
                    error@,
                    digits@,
                ),
            },
    {
        let mut bytes: Vec<u8> = vec![0u8; digits.len() / 2];
        if digits.len() == 0 {
            assert(bytes@ =~= pairs_to_bytes(bytes_as_chars(digits@)));
            return Ok(Bytes(bytes));
        }
        match hex_decode(digits, &mut bytes) {
            Ok(()) => Ok(Bytes(bytes)),
            Err((bad, diagnostic)) => {
                let reason = match bad {
                    Some((index, byte)) => HexFault::InvalidDigit { index, byte },
                    None => HexFault::OddLength,
                };
                Err(DecodeError::invalid_hex(reason, diagnostic.as_str()))
            },
        }
    }

    /// Reads the text form. The text has to start with `0x`, in exactly this
    /// case, and go on with an even number of hexadecimal digits of either
    /// case; `0x` alone is the empty byte string. Any other text is refused:
    /// without the prefix as `MissingPrefix`, with it as `InvalidHex`.
    pub fn decode(text: &str) -> (result: Result<Bytes, DecodeError>)
        ensures
            match result {
                Ok(bytes) => decode_spec(text@) == Some(bytes@),
                Err(error) => decode_spec(text@) is None && explains(error@, text@),
            },
    {
        let raw = text.as_bytes();
        proof {
            lemma_prefix_bytes(text@);
            lemma_digit_pairs_bytes(payload(text@));
        }
        if raw.len() >= 2 && raw[0] == ASCII_ZERO && raw[1] == ASCII_X {
            let digits = slice_subrange(raw, 2, raw.len());
            assert(digits@ =~= raw@.skip(2));
            Bytes::decode_payload(digits)
        } else {
            Err(DecodeError::MissingPrefix { value: text.to_owned() })
        }
    }

    /// Reads the text form from an owned string, as `decode` does.
    pub fn deserialize_from_string(text: String) -> (result: Result<Bytes, DecodeError>)
        ensures
            match result {
                Ok(bytes) => decode_spec(text@) == Some(bytes@),
                Err(error) => decode_spec(text@) is None && explains(error@, text@),
            },
    {
        Bytes::decode(text.as_str())
    }
}

} // verus!
