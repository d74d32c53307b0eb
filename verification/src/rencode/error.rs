use vstd::prelude::*;

verus! {

/// What can go wrong while writing or reading rencode data.
#[derive(Debug, PartialEq)]
pub enum Error {
    /// An unsigned integer above `i64::MAX` was to be written.
    UnsignedTooLarge,
    /// A sequence of unknown length was to be written.
    SeqLengthUnknown,
    /// A map of unknown length was to be written.
    MapLengthUnknown,
    /// A value started with the string-length terminator `:`.
    UnexpectedStrlenTerminator,
    /// A value started with the list/dict terminator.
    UnexpectedTerminator,
    /// A value started with one of the bytes 45 to 48, which have no meaning.
    UnknownType(u8),
    /// Bytes were left over after the value.
    TooManyBytes,
    /// The data ended in the middle of a value.
    UnexpectedEnd,
    /// A value used the arbitrary-precision integer type, which is not supported.
    UnsupportedInt,
    /// A string of fixed length did not hold UTF-8.
    InvalidUtf8,
    /// The decimal length of a long string was not a number that fits in `usize`.
    InvalidLength,
    /// A message of the caller's own.
    Custom(String),
}

impl Error {
    /// The text of the error, as a user sees it.
    pub open spec fn text(self) -> Seq<char> {
        match self {
            Error::UnsignedTooLarge => "unsigned integers are unsupported"@,
            Error::SeqLengthUnknown => "try .collect()"@,
            Error::MapLengthUnknown => "need to know map size ahead of time"@,
            Error::UnexpectedStrlenTerminator => "unexpected strlen terminator"@,
            Error::UnexpectedTerminator => "unexpected list/dict terminator"@,
            Error::UnknownType(_) => "I don't know what values 45-48 are supposed to mean"@,
            Error::TooManyBytes => "too many bytes"@,
            Error::UnexpectedEnd => "unexpected end of input"@,
            Error::UnsupportedInt => "arbitrary-precision integers are unsupported"@,
            Error::InvalidUtf8 => "string is not valid UTF-8"@,
            Error::InvalidLength => "invalid string length"@,
            Error::Custom(s) => s@,
        }
    }

    /// The text of the error, as a user sees it.
    pub fn message(&self) -> (r: String)
        ensures
            r@ == self.text(),
    {
        match self {
            Error::UnsignedTooLarge => "unsigned integers are unsupported".to_owned(),
            Error::SeqLengthUnknown => "try .collect()".to_owned(),
            Error::MapLengthUnknown => "need to know map size ahead of time".to_owned(),
            Error::UnexpectedStrlenTerminator => "unexpected strlen terminator".to_owned(),
            Error::UnexpectedTerminator => "unexpected list/dict terminator".to_owned(),
            Error::UnknownType(_) => "I don't know what values 45-48 are supposed to mean".to_owned(),
            Error::TooManyBytes => "too many bytes".to_owned(),
            Error::UnexpectedEnd => "unexpected end of input".to_owned(),
            Error::UnsupportedInt => "arbitrary-precision integers are unsupported".to_owned(),
            Error::InvalidUtf8 => "string is not valid UTF-8".to_owned(),
            Error::InvalidLength => "invalid string length".to_owned(),
            Error::Custom(s) => s.clone(),
        }
    }
}

} // verus!
