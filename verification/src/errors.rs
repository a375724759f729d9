//! Errors of the library.
use vstd::prelude::*;

verus! {

/// The checksum in a message header does not match the message.
#[derive(Debug, PartialEq, Eq)]
pub struct WrongChecksum();

impl WrongChecksum {
    /// The text shown for this error.
    pub fn message(&self) -> (r: &'static str)
        ensures
            r == WRONG_CHECKSUM_TEXT,
    {
        WRONG_CHECKSUM_TEXT
    }
}

/// The text of [`WrongChecksum`].
pub const WRONG_CHECKSUM_TEXT: &'static str = "Wrong checksum in message";

/// Why a message could not be decoded.
#[derive(Debug, PartialEq, Eq)]
pub enum DecodeError {
    /// The input ended inside a field.
    UnexpectedEnd,
    /// A string announced a negative length.
    NegativeLength,
    /// The bytes of a string are not UTF-8.
    InvalidUtf8,
    /// A string length prefix ran on past five groups.
    LengthPrefixTooLong,
    /// The checksum of the message does not match.
    WrongChecksum(WrongChecksum),
}

} // verus!
