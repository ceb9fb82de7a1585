use vstd::prelude::*;

verus! {

/// The error returned when a size is created from a magnitude that cannot be
/// represented: one that is not a decimal numeral, one too large for the
/// storage, or a non-zero one below its resolution.
#[derive(Clone, Copy, Debug, PartialEq, Eq)]
pub struct InvalidValueError;

impl InvalidValueError {
    /// The human-readable description of this error.
    pub fn to_string(&self) -> (r: String)
        ensures
            r@ == "invalid value"@,
    {
        String::from_str("invalid value")
    }
}

/// The error returned when a size cannot be parsed from text.
#[derive(Clone, Copy, Debug, PartialEq, Eq)]
pub enum ParsingError {
    /// The text holds nothing but white space, e.g. "".
    EmptyInput,
    /// The text starts with something other than a magnitude, e.g. "B".
    MissingValue,
    /// The magnitude is malformed or out of range, e.g. "1.0.0 GB".
    InvalidValue,
    /// The text holds a magnitude and no multiple, e.g. "100".
    MissingMultiple,
    /// The multiple is not one of the known tokens, e.g. "100 invalid".
    InvalidMultiple,
}

impl ParsingError {
    /// What `to_string` returns for each error.
    pub open spec fn message(self) -> Seq<char> {
        match self {
            ParsingError::EmptyInput => "input is empty"@,
            ParsingError::MissingValue => "no value"@,
            ParsingError::InvalidValue => "invalid value"@,
            ParsingError::MissingMultiple => "no multiple"@,
            ParsingError::InvalidMultiple => "invalid multiple"@,
        }
    }

    /// The human-readable description of this error.
    pub fn to_string(&self) -> (r: String)
        ensures
            r@ == self.message(),
    {
        match self {
            ParsingError::EmptyInput => String::from_str("input is empty"),
            ParsingError::MissingValue => String::from_str("no value"),
            ParsingError::InvalidValue => String::from_str("invalid value"),
            ParsingError::MissingMultiple => String::from_str("no multiple"),
            ParsingError::InvalidMultiple => String::from_str("invalid multiple"),
        }
    }
}

} // verus!
