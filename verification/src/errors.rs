//! What can go wrong in a job, by kind.

use vstd::prelude::*;
use vstd::string::*;

verus! {

/// The broad classes of failure that callers branch on.
#[derive(Clone, Copy, Debug, PartialEq, Eq, Structural)]
pub enum ErrorKind {
    /// A cast or a parse that is unsupported or failed.
    Conversion,
    /// A column name or index that the schema does not have.
    Lookup,
    /// An operation applied to a variant that does not support it.
    Type,
    /// A file path that is not valid text.
    Encoding,
    /// A command called with arguments it does not take.
    Usage,
    /// A row that could not be handed to the next stage.
    Send,
}

/// A failure of one value-level or stage-level operation.
#[derive(Clone, Copy, Debug, PartialEq, Eq, Structural)]
pub enum JobError {
    /// No conversion exists between the two types.
    UnsupportedConversion,
    /// The text is not a decimal integer that fits.
    InvalidInteger,
    /// The text is not a regular expression.
    InvalidRegex,
    /// The text does not name a type.
    InvalidType,
    /// The file name is not valid unicode.
    BrokenFileName,
    /// A stream was used where only a value that can be copied may stand.
    InvalidStreamUse,
    /// A value that names no file was used as one.
    ExpectedFileName,
    /// The schema has no column of that name.
    UnknownColumn,
    /// More arguments were given than the command takes.
    TooManyArguments,
    /// An argument that should select a column is not a field.
    ExpectedField,
    /// The input of an operator is not a stream.
    ExpectedStream,
    /// The consumer of the output has gone away.
    OutputClosed,
    /// A value of a kind that cannot be hashed was used as a key.
    NotHashable,
    /// Fewer arguments were given than the command takes.
    MissingArgument,
    /// An argument was given under a name that the command does not know.
    UnknownArgument,
}

impl JobError {
    /// The class this failure belongs to.
    pub open spec fn spec_kind(self) -> ErrorKind {
        match self {
            JobError::UnsupportedConversion => ErrorKind::Conversion,
            JobError::InvalidInteger => ErrorKind::Conversion,
            JobError::InvalidRegex => ErrorKind::Conversion,
            JobError::InvalidType => ErrorKind::Conversion,
            JobError::BrokenFileName => ErrorKind::Encoding,
            JobError::InvalidStreamUse => ErrorKind::Type,
            JobError::ExpectedFileName => ErrorKind::Type,
            JobError::UnknownColumn => ErrorKind::Lookup,
            JobError::TooManyArguments => ErrorKind::Usage,
            JobError::ExpectedField => ErrorKind::Usage,
            JobError::ExpectedStream => ErrorKind::Type,
            JobError::OutputClosed => ErrorKind::Send,
            JobError::NotHashable => ErrorKind::Type,
            JobError::MissingArgument => ErrorKind::Usage,
            JobError::UnknownArgument => ErrorKind::Usage,
        }
    }

    /// The class this failure belongs to.
    pub fn kind(&self) -> (k: ErrorKind)
        ensures
            k == self.spec_kind(),
    {
        match self {
            JobError::UnsupportedConversion => ErrorKind::Conversion,
            JobError::InvalidInteger => ErrorKind::Conversion,
            JobError::InvalidRegex => ErrorKind::Conversion,
            JobError::InvalidType => ErrorKind::Conversion,
            JobError::BrokenFileName => ErrorKind::Encoding,
            JobError::InvalidStreamUse => ErrorKind::Type,
            JobError::ExpectedFileName => ErrorKind::Type,
            JobError::UnknownColumn => ErrorKind::Lookup,
            JobError::TooManyArguments => ErrorKind::Usage,
            JobError::ExpectedField => ErrorKind::Usage,
            JobError::ExpectedStream => ErrorKind::Type,
            JobError::OutputClosed => ErrorKind::Send,
            JobError::NotHashable => ErrorKind::Type,
            JobError::MissingArgument => ErrorKind::Usage,
            JobError::UnknownArgument => ErrorKind::Usage,
        }
    }

    /// The sentence shown to the user for this failure.
    pub open spec fn spec_message(self) -> Seq<char> {
        match self {
            JobError::UnsupportedConversion => "Unimplemented conversion"@,
            JobError::InvalidInteger => "Invalid integer"@,
            JobError::InvalidRegex => "Invalid regular expression"@,
            JobError::InvalidType => "Invalid type"@,
            JobError::BrokenFileName => "File name is not valid unicode"@,
            JobError::InvalidStreamUse => "Invalid use of stream"@,
            JobError::ExpectedFileName => "Expected a file name"@,
            JobError::UnknownColumn => "Unknown column"@,
            JobError::TooManyArguments => "Too many arguments"@,
            JobError::ExpectedField => "Expected a field"@,
            JobError::ExpectedStream => "Expected io to be a stream"@,
            JobError::OutputClosed => "Output is closed"@,
            JobError::NotHashable => "Can't hash mutable cell types!"@,
            JobError::MissingArgument => "Missing argument"@,
            JobError::UnknownArgument => "Unknown argument"@,
        }
    }

    /// The sentence shown to the user for this failure.
    pub fn message(&self) -> (m: String)
        ensures
            m@ == self.spec_message(),
    {
        match self {
            JobError::UnsupportedConversion => String::from_str("Unimplemented conversion"),
            JobError::InvalidInteger => String::from_str("Invalid integer"),
            JobError::InvalidRegex => String::from_str("Invalid regular expression"),
            JobError::InvalidType => String::from_str("Invalid type"),
            JobError::BrokenFileName => String::from_str("File name is not valid unicode"),
            JobError::InvalidStreamUse => String::from_str("Invalid use of stream"),
            JobError::ExpectedFileName => String::from_str("Expected a file name"),
            JobError::UnknownColumn => String::from_str("Unknown column"),
            JobError::TooManyArguments => String::from_str("Too many arguments"),
            JobError::ExpectedField => String::from_str("Expected a field"),
            JobError::ExpectedStream => String::from_str("Expected io to be a stream"),
            JobError::OutputClosed => String::from_str("Output is closed"),
            JobError::NotHashable => String::from_str("Can't hash mutable cell types!"),
            JobError::MissingArgument => String::from_str("Missing argument"),
            JobError::UnknownArgument => String::from_str("Unknown argument"),
        }
    }
}

} // verus!
