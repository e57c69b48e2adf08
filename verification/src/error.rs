//! The error type of the converter.

use vstd::prelude::*;
use vstd::string::StringExecFns;

verus! {

/// What went wrong.
#[derive(Clone, Copy, Debug, PartialEq, Eq, Structural)]
pub enum ErrorKind {
    /// The glob pattern is malformed.
    InvalidPattern,
    /// Reading, writing or inspecting a file failed.
    Filesystem,
    /// The input could not be decoded.
    Decode,
    /// The bitmap could not be encoded.
    Encode,
    /// There is no encoder for the requested target format.
    UnsupportedFormat,
    /// An error given as a plain message.
    Custom,
}

/// What is known of an error in contracts.
pub struct ErrorView {
    pub kind: ErrorKind,
    pub message: Seq<char>,
}

/// Represents the error type for the application: the kind of the failure
/// and the text of its cause.
#[derive(Debug)]
pub struct Error {
    kind: ErrorKind,
    message: String,
}

impl View for Error {
    type V = ErrorView;

    closed spec fn view(&self) -> ErrorView {
        ErrorView { kind: self.kind, message: self.message@ }
    }
}

/// The text of an error made of a plain message.
pub open spec fn custom_text(msg: Seq<char>) -> Seq<char> {
    "CustomError: "@ + msg
}

impl Error {
    /// Constructs a new `Error` of the given kind from the text of its cause.
    pub fn new(kind: ErrorKind, message: String) -> (e: Error)
        ensures
            e@ == (ErrorView { kind, message: message@ }),
    {
        Error { kind, message }
    }

    /// Constructs a new `Error` from a string message.
    pub fn from_string(msg: String) -> (e: Self)
        ensures
            e@ == (ErrorView { kind: ErrorKind::Custom, message: custom_text(msg@) }),
    {
        let mut message = String::from_str("CustomError: ");
        message.append(msg.as_str());
        Error { kind: ErrorKind::Custom, message }
    }

    /// Helper function to get the underlying cause of the error, as text.
    pub fn cause(&self) -> (r: &str)
        ensures
            r@ == self@.message,
    {
        self.message.as_str()
    }

    /// The kind of the failure.
    pub fn kind(&self) -> (r: ErrorKind)
        ensures
            r == self@.kind,
    {
        self.kind
    }

    /// The error as text: the text of its cause.
    pub fn to_string(&self) -> (r: String)
        ensures
            r@ == self@.message,
    {
        self.message.clone()
    }
}

} // verus!
