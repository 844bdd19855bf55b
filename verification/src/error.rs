//! Error taxonomy: every parse failure is a typed, recoverable value, and an
//! entry-level failure keeps its cause so callers can tell the stages apart.

use vstd::prelude::*;
use vstd::string::StringExecFns;

verus! {

/// The top-level segment of an entry line that a missing-field error names.
#[derive(Clone, Copy, Debug, PartialEq, Eq, Structural)]
pub enum EntryField {
    Timestamp,
    Version,
    Max,
    Values,
}

/// The numeric segment of a version string that a missing-field error names.
#[derive(Clone, Copy, Debug, PartialEq, Eq, Structural)]
pub enum VersionField {
    Major,
    Minor,
    Patch,
}

/// Why a token failed to parse as an integer.
#[derive(Clone, Copy, Debug, PartialEq, Eq, Structural)]
pub enum IntError {
    /// The token was empty.
    Empty,
    /// A character of the token is not a decimal digit (a stray sign
    /// character included).
    InvalidDigit,
    /// The value exceeds the largest value of the target type.
    PosOverflow,
    /// The value is below the smallest value of the target type.
    NegOverflow,
}

/// A failure to parse a version string.
#[derive(Clone, Copy, Debug, PartialEq, Eq, Structural)]
pub enum ParseVersionError {
    /// The input ran out before this numeric field.
    MissingField(VersionField),
    /// A present segment is not a valid 16-bit unsigned integer.
    InvalidInteger(IntError),
}

/// A failure to parse an entry line.
#[derive(Clone, Debug, PartialEq, Eq)]
pub enum ParseEntryError {
    /// The input ran out before this segment.
    MissingField(EntryField),
    /// The max segment or a values token is not a valid 32-bit signed
    /// integer.
    InvalidInteger(IntError),
    /// The timestamp text does not match the expected pattern; carries the
    /// rendering of the underlying timestamp error.
    InvalidTimestamp(String),
    /// The version segment failed to parse; keeps the version error as its
    /// cause.
    InvalidVersion(ParseVersionError),
}

/// An entry error stripped of the timestamp error's rendering: the part of a
/// [`ParseEntryError`] that is a function of the input text alone.
#[derive(Clone, Copy, Debug, PartialEq, Eq, Structural)]
pub enum EntryErrorKind {
    MissingField(EntryField),
    InvalidInteger(IntError),
    InvalidTimestamp,
    InvalidVersion(ParseVersionError),
}

impl EntryField {
    /// The field's name as it appears in a rendered error.
    pub open spec fn spec_text(self) -> Seq<char> {
        match self {
            EntryField::Timestamp => "timestamp"@,
            EntryField::Version => "version"@,
            EntryField::Max => "max"@,
            EntryField::Values => "values"@,
        }
    }

    pub fn as_text(self) -> (r: &'static str)
        ensures
            r@ == self.spec_text(),
    {
        match self {
            EntryField::Timestamp => "timestamp",
            EntryField::Version => "version",
            EntryField::Max => "max",
            EntryField::Values => "values",
        }
    }
}

impl VersionField {
    /// The field's name as it appears in a rendered error.
    pub open spec fn spec_text(self) -> Seq<char> {
        match self {
            VersionField::Major => "major"@,
            VersionField::Minor => "minor"@,
            VersionField::Patch => "patch"@,
        }
    }

    pub fn as_text(self) -> (r: &'static str)
        ensures
            r@ == self.spec_text(),
    {
        match self {
            VersionField::Major => "major",
            VersionField::Minor => "minor",
            VersionField::Patch => "patch",
        }
    }
}

impl IntError {
    /// The error's rendering.
    pub open spec fn spec_text(self) -> Seq<char> {
        match self {
            IntError::Empty => "cannot parse integer from empty string"@,
            IntError::InvalidDigit => "invalid digit found in string"@,
            IntError::PosOverflow => "number too large to fit in target type"@,
            IntError::NegOverflow => "number too small to fit in target type"@,
        }
    }

    pub fn as_text(self) -> (r: &'static str)
        ensures
            r@ == self.spec_text(),
    {
        match self {
            IntError::Empty => "cannot parse integer from empty string",
            IntError::InvalidDigit => "invalid digit found in string",
            IntError::PosOverflow => "number too large to fit in target type",
            IntError::NegOverflow => "number too small to fit in target type",
        }
    }
}

impl ParseVersionError {
    /// The error's rendering: names the missing segment, or passes on the
    /// integer error's own rendering.
    pub open spec fn spec_message(self) -> Seq<char> {
        match self {
            ParseVersionError::MissingField(f) => "missing segment: "@ + f.spec_text(),
            ParseVersionError::InvalidInteger(e) => e.spec_text(),
        }
    }

    /// Human-readable rendering of the error.
    pub fn message(&self) -> (r: String)
        ensures
            r@ == self.spec_message(),
    {
        match self {
            ParseVersionError::MissingField(f) => {
                let mut s = String::from_str("missing segment: ");
                s.append(f.as_text());
                s
            },
            ParseVersionError::InvalidInteger(e) => String::from_str(e.as_text()),
        }
    }
}

impl ParseEntryError {
    /// The error with the timestamp error's rendering dropped.
    pub open spec fn kind(self) -> EntryErrorKind {
        match self {
            ParseEntryError::MissingField(f) => EntryErrorKind::MissingField(f),
            ParseEntryError::InvalidInteger(e) => EntryErrorKind::InvalidInteger(e),
            ParseEntryError::InvalidTimestamp(_) => EntryErrorKind::InvalidTimestamp,
            ParseEntryError::InvalidVersion(e) => EntryErrorKind::InvalidVersion(e),
        }
    }

    /// The error's rendering: names the missing segment, or passes on the
    /// underlying integer, timestamp or version error's own rendering.
    pub open spec fn spec_message(self) -> Seq<char> {
        match self {
            ParseEntryError::MissingField(f) => "missing "@ + f.spec_text(),
            ParseEntryError::InvalidInteger(e) => e.spec_text(),
            ParseEntryError::InvalidTimestamp(m) => m@,
            ParseEntryError::InvalidVersion(e) => e.spec_message(),
        }
    }

    /// Human-readable rendering of the error.
    pub fn message(&self) -> (r: String)
        ensures
            r@ == self.spec_message(),
    {
        match self {
            ParseEntryError::MissingField(f) => {
                let mut s = String::from_str("missing ");
                s.append(f.as_text());
                s
            },
            ParseEntryError::InvalidInteger(e) => String::from_str(e.as_text()),
            ParseEntryError::InvalidTimestamp(m) => m.clone(),
            ParseEntryError::InvalidVersion(e) => e.message(),
        }
    }
}

} // verus!
