//! The error taxonomy of the crate: failures of hexadecimal parsing, of
//! label resolution, and of custom-label line parsing.

use vstd::prelude::*;

verus! {

/// The reason the hexadecimal part of a hash string failed to parse as an
/// unsigned 64-bit integer.
#[derive(Debug, Clone, Copy, PartialEq, Eq, Structural)]
pub enum NumParseError {
    /// No digits followed the prefix.
    Empty,
    /// A character that is not a hexadecimal digit was found.
    InvalidDigit,
    /// The digits denote a value too large for 64 bits.
    PosOverflow,
}

/// The error returned when converting hexadecimal text to a hash.
#[derive(Debug, Clone, Copy, PartialEq, Eq, Structural)]
pub enum ParseHashError {
    /// The error returned when the numeric hash string doesn't begin with `"0x"`.
    MissingPrefix,
    /// The error returned when the hexadecimal part of the hash string cannot be parsed.
    ParseError(NumParseError),
}

/// The error returned when converting a label to a hash.
#[derive(Debug, Clone)]
pub enum FromLabelError {
    /// The error returned only when the label map is bidirectional, and a label
    /// cannot be matched to a hash.
    LabelNotFound(String),
    /// The error returned when the hexadecimal part of the hash string cannot be parsed.
    ParseError(NumParseError),
}

impl PartialEq for FromLabelError {
    fn eq(&self, other: &Self) -> bool {
        match (self, other) {
            (FromLabelError::LabelNotFound(a), FromLabelError::LabelNotFound(b)) => *a == *b,
            (FromLabelError::ParseError(a), FromLabelError::ParseError(b)) => *a == *b,
            _ => false,
        }
    }
}

impl vstd::std_specs::cmp::PartialEqSpecImpl for FromLabelError {
    open spec fn obeys_eq_spec() -> bool {
        true
    }

    open spec fn eq_spec(&self, other: &Self) -> bool {
        match (self, other) {
            (FromLabelError::LabelNotFound(a), FromLabelError::LabelNotFound(b)) => a@ == b@,
            (FromLabelError::ParseError(a), FromLabelError::ParseError(b)) => a == b,
            _ => false,
        }
    }
}

/// Relies on std::io::Error: declared so that the custom-label error type
/// can carry it for callers that load label files; the crate itself never
/// constructs or inspects a value of it.
#[verifier::external_type_specification]
#[verifier::external_body]
pub struct ExIoError(std::io::Error);

/// The type of error returned when reading from custom label files.
#[derive(Debug)]
pub enum CustomLabelError {
    Io(std::io::Error),
    MisingColumn,
    ParseHashError(ParseHashError),
}

impl From<NumParseError> for ParseHashError {
    fn from(err: NumParseError) -> Self {
        ParseHashError::ParseError(err)
    }
}

impl vstd::std_specs::convert::FromSpecImpl<NumParseError> for ParseHashError {
    open spec fn obeys_from_spec() -> bool {
        true
    }

    open spec fn from_spec(err: NumParseError) -> Self {
        ParseHashError::ParseError(err)
    }
}

impl From<NumParseError> for FromLabelError {
    fn from(err: NumParseError) -> Self {
        FromLabelError::ParseError(err)
    }
}

impl vstd::std_specs::convert::FromSpecImpl<NumParseError> for FromLabelError {
    open spec fn obeys_from_spec() -> bool {
        true
    }

    open spec fn from_spec(err: NumParseError) -> Self {
        FromLabelError::ParseError(err)
    }
}

impl From<std::io::Error> for CustomLabelError {
    fn from(err: std::io::Error) -> Self {
        CustomLabelError::Io(err)
    }
}

impl vstd::std_specs::convert::FromSpecImpl<std::io::Error> for CustomLabelError {
    open spec fn obeys_from_spec() -> bool {
        true
    }

    open spec fn from_spec(err: std::io::Error) -> Self {
        CustomLabelError::Io(err)
    }
}

impl From<ParseHashError> for CustomLabelError {
    fn from(err: ParseHashError) -> Self {
        CustomLabelError::ParseHashError(err)
    }
}

impl vstd::std_specs::convert::FromSpecImpl<ParseHashError> for CustomLabelError {
    open spec fn obeys_from_spec() -> bool {
        true
    }

    open spec fn from_spec(err: ParseHashError) -> Self {
        CustomLabelError::ParseHashError(err)
    }
}

} // verus!
