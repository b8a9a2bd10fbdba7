//! What can be wrong with a text that should hold a byte string.

use vstd::prelude::*;
use vstd::string::StringExecFns;

verus! {

/// Why a payload is not a run of hexadecimal digit pairs.
#[derive(Clone, Copy, Debug, PartialEq, Eq)]
pub enum HexFault {
    /// The payload holds an odd number of bytes.
    OddLength,
    /// The payload's byte at offset `index` is `byte`, which is no
    /// hexadecimal digit; every byte before it is one.
    InvalidDigit { index: usize, byte: u8 },
}

/// A text that was refused, and why.
#[derive(Debug, PartialEq, Eq)]
pub enum DecodeError {
    /// The text does not start with `0x`. `value` is the whole text.
    MissingPrefix { value: String },
    /// The text starts with `0x`, but what follows is not an even number of
    /// hexadecimal digits. `message` is `Invalid hex: ` followed by the
    /// decoder's own words.
    InvalidHex { reason: HexFault, message: String },
}

/// A `DecodeError` with its texts as character sequences.
pub enum Failure {
    MissingPrefix { value: Seq<char> },
    InvalidHex { reason: HexFault, message: Seq<char> },
}

impl View for DecodeError {
    type V = Failure;

    open spec fn view(&self) -> Failure {
        match self {
            DecodeError::MissingPrefix { value } => Failure::MissingPrefix { value: value@ },
            DecodeError::InvalidHex { reason, message } => Failure::InvalidHex {
                reason: *reason,
                message: message@,
            },
        }
    }
}

/// The message of an `InvalidHex` error whose decoder said `diagnostic`.
pub open spec fn invalid_hex_message(diagnostic: Seq<char>) -> Seq<char> {
    "Invalid hex: "@ + diagnostic
}

impl Clone for DecodeError {
    fn clone(&self) -> (copy: Self)
        ensures
            copy@ == self@,
    {
        match self {
            DecodeError::MissingPrefix { value } => DecodeError::MissingPrefix {
                value: value.clone(),
            },
            DecodeError::InvalidHex { reason, message } => DecodeError::InvalidHex {
                reason: *reason,
                message: message.clone(),
            },
        }
    }
}

impl DecodeError {
    /// The error for a payload that the decoder refused for `reason`, saying
    /// `diagnostic`.
    pub fn invalid_hex(reason: HexFault, diagnostic: &str) -> (error: DecodeError)
        ensures
            error@ == (Failure::InvalidHex {
                reason,
                message: invalid_hex_message(diagnostic@),
            }),
    {
        let mut message = "Invalid hex: ".to_owned();
        message.append(diagnostic);
        DecodeError::InvalidHex { reason, message }
    }
}

} // verus!
