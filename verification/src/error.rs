//! The ways in which reading a plugin can fail.

use vstd::prelude::*;
use vstd::std_specs::convert::FromSpecImpl;
use vstd::string::StringExecFns;

verus! {

/// The error type of `std::io`, carried through unread.
#[verifier::external_type_specification]
#[verifier::external_body]
pub struct ExIoError(std::io::Error);

/// A failure to read a plugin.
#[derive(Debug)]
pub enum Error {
    /// The byte source failed or ended early; the cause is kept.
    IoError(std::io::Error),
    /// The plugin's path has no final component.
    NoFilename,
    /// The input ended in the middle of a frame.
    ParsingIncomplete,
    /// The bytes do not have the shape of a plugin; the text says where.
    ParsingError(String),
    /// A Windows-1252 string or a compressed payload could not be decoded;
    /// the text says why.
    DecodeError(String),
}

/// The kind of a failure, without its details.
#[derive(Clone, Copy, Debug, PartialEq, Eq, Structural)]
pub enum ErrorKind {
    /// The byte source failed or ended early.
    Io,
    /// The plugin's path has no final component.
    NoFilename,
    /// The input ended in the middle of a frame.
    ParsingIncomplete,
    /// The bytes do not have the shape of a plugin.
    ParsingError,
    /// A string or a compressed payload could not be decoded.
    DecodeError,
}

/// What [`Error::description`] says of a path without a filename.
pub open spec fn no_filename_text() -> Seq<char> {
    "The plugin path has no filename part"@
}

/// What [`Error::description`] says of input that ended early.
pub open spec fn parsing_incomplete_text() -> Seq<char> {
    "More input was expected by the plugin parser"@
}

/// What [`Error::description`] says of misshapen input.
pub open spec fn parsing_error_text() -> Seq<char> {
    "An error was encountered while parsing a plugin"@
}

/// What [`Error::description`] says of an undecodable string.
pub open spec fn decode_error_text() -> Seq<char> {
    "Plugin string content could not be decoded from Windows-1252"@
}

/// Calls `to_string` of `std::io::Error`, which renders the error through
/// its `Display` impl. Nothing is claimed of the text.
#[verifier::external_body]
fn io_error_text(error: &std::io::Error) -> (text: String) {
    error.to_string()
}

impl Error {
    /// The kind of this failure.
    pub open spec fn spec_kind(&self) -> ErrorKind {
        match self {
            Error::IoError(_) => ErrorKind::Io,
            Error::NoFilename => ErrorKind::NoFilename,
            Error::ParsingIncomplete => ErrorKind::ParsingIncomplete,
            Error::ParsingError(_) => ErrorKind::ParsingError,
            Error::DecodeError(_) => ErrorKind::DecodeError,
        }
    }

    /// The kind of this failure.
    #[verifier::when_used_as_spec(spec_kind)]
    pub fn kind(&self) -> (kind: ErrorKind)
        ensures
            kind == self.spec_kind(),
    {
        match self {
            Error::IoError(_) => ErrorKind::Io,
            Error::NoFilename => ErrorKind::NoFilename,
            Error::ParsingIncomplete => ErrorKind::ParsingIncomplete,
            Error::ParsingError(_) => ErrorKind::ParsingError,
            Error::DecodeError(_) => ErrorKind::DecodeError,
        }
    }

    /// A short text for the kind of failure, without its details. For an
    /// I/O error it is the text of the cause.
    pub fn description(&self) -> (text: String)
        ensures
            self is NoFilename ==> text@ == no_filename_text(),
            self is ParsingIncomplete ==> text@ == parsing_incomplete_text(),
            self is ParsingError ==> text@ == parsing_error_text(),
            self is DecodeError ==> text@ == decode_error_text(),
    {
        match self {
            Error::IoError(x) => io_error_text(x),
            Error::NoFilename => String::from_str("The plugin path has no filename part"),
            Error::ParsingIncomplete => String::from_str(
                "More input was expected by the plugin parser",
            ),
            Error::ParsingError(_) => String::from_str(
                "An error was encountered while parsing a plugin",
            ),
            Error::DecodeError(_) => String::from_str(
                "Plugin string content could not be decoded from Windows-1252",
            ),
        }
    }

    /// The text to show for the failure. It is the description, followed
    /// for misshapen input by a colon, a space and the place.
    pub fn message(&self) -> (text: String)
        ensures
            self is NoFilename ==> text@ == no_filename_text(),
            self is ParsingIncomplete ==> text@ == parsing_incomplete_text(),
            self matches Error::ParsingError(place) ==> text@ == parsing_error_text() + ": "@
                + place@,
            self is DecodeError ==> text@ == decode_error_text(),
    {
        match self {
            Error::ParsingError(place) => {
                self.description().concat(": ").concat(place.as_str())
            },
            _ => self.description(),
        }
    }

    /// The I/O error behind the failure, where there is one.
    pub fn cause(&self) -> (cause: Option<&std::io::Error>)
        ensures
            match self {
                Error::IoError(x) => cause == Some(x),
                _ => cause is None,
            },
    {
        match self {
            Error::IoError(x) => Some(x),
            _ => None,
        }
    }
}

impl From<std::io::Error> for Error {
    fn from(error: std::io::Error) -> (converted: Error) {
        Error::IoError(error)
    }
}

impl FromSpecImpl<std::io::Error> for Error {
    open spec fn obeys_from_spec() -> bool {
        true
    }

    open spec fn from_spec(error: std::io::Error) -> Error {
        Error::IoError(error)
    }
}

impl From<String> for Error {
    fn from(reason: String) -> (converted: Error) {
        Error::DecodeError(reason)
    }
}

impl FromSpecImpl<String> for Error {
    open spec fn obeys_from_spec() -> bool {
        true
    }

    open spec fn from_spec(reason: String) -> Error {
        Error::DecodeError(reason)
    }
}

} // verus!
