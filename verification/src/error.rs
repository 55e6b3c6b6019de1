//! The ways in which decoding a save can fail.

use vstd::prelude::*;

verus! {

/// Why a text could not be decoded.
///
/// Every failure ends the call that met it: no decoder returns a partly
/// built value, and none puts a default in the place of a field that it
/// could not read.
#[derive(Clone, Copy, Debug, PartialEq, Eq, Hash)]
pub enum Error {
    /// The armoured text is not standard base64.
    Base64,
    /// A number with a fraction or an exponent is malformed.
    Float,
    /// An integer is malformed or out of range.
    Int,
    /// The bytes under the armour are not UTF-8.
    Utf8,
    /// A flag is neither `0` nor `1`.
    Bool,
    /// A record has fewer segments than fields.
    InsufficientData,
    /// A count of milliseconds names no representable instant.
    TimestampOutOfRange,
}

/// A failure with the place where it arose: the position of the field
/// that failed in its record, the first field being at 0, behind the
/// position of that record in the record that holds it, and so on from
/// the outermost record inwards. A failure of the armour has no place.
#[derive(Clone, Debug, PartialEq, Eq)]
pub struct Failure {
    pub error: Error,
    pub path: Vec<usize>,
}

impl Error {
    /// The message that describes this error, as a sequence of characters.
    pub open spec fn message_spec(self) -> Seq<char> {
        match self {
            Error::Base64 => "invalid base64"@,
            Error::Float => "invalid float literal"@,
            Error::Int => "invalid integer literal"@,
            Error::Utf8 => "invalid utf-8 sequence"@,
            Error::Bool => "must be \"0\" or \"1\""@,
            Error::InsufficientData => "insufficient data"@,
            Error::TimestampOutOfRange => "timestamp out of range"@,
        }
    }

    /// A message that describes this error.
    pub fn message(&self) -> (text: &'static str)
        ensures
            text@ == self.message_spec(),
    {
        match self {
            Error::Base64 => "invalid base64",
            Error::Float => "invalid float literal",
            Error::Int => "invalid integer literal",
            Error::Utf8 => "invalid utf-8 sequence",
            Error::Bool => "must be \"0\" or \"1\"",
            Error::InsufficientData => "insufficient data",
            Error::TimestampOutOfRange => "timestamp out of range",
        }
    }
}

} // verus!
