//! Owned byte buffers with a `0x`-prefixed, lowercase hexadecimal text form.

pub mod ascii;
pub mod backend;
pub mod bytes;
pub mod digits;
pub mod error;
pub mod text;

pub use crate::bytes::Bytes;
pub use crate::error::{DecodeError, HexFault};
