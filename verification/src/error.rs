//! The error taxonomy surfaced to callers of the library.

use vstd::prelude::*;

verus! {

/// What went wrong.  `ServerError` carries the text the server sent after
/// `-ERR`; the other variants describe client-side conditions.
#[derive(Debug)]
pub enum ErrorKind {
    Io,
    Tls,
    InvalidDnsName,
    ParseInt,
    ParseString,
    ServerError(String),
    DecodeBase64,
    NotConnected,
    ShouldNotBeConnected,
    IncorrectStateForCommand,
    MessageIsDeleted,
    FeatureUnsupported,
    ServerFailedToGreet,
    InvalidResponse,
    ResponseTooLarge,
    MissingRequest,
    ParseCommand,
    UnexpectedResponse,
    ConnectionClosed,
}

/// An error kind together with a human-readable message.
#[derive(Debug)]
pub struct Error {
    message: String,
    kind: ErrorKind,
}

impl Error {
    /// The kind this error carries.
    pub closed spec fn spec_kind(&self) -> ErrorKind {
        self.kind
    }

    /// The message this error carries.
    pub closed spec fn spec_message(&self) -> Seq<char> {
        self.message@
    }

    pub fn new(error_kind: ErrorKind, message: String) -> (r: Error)
        ensures
            r.spec_kind() == error_kind,
            r.spec_message() == message@,
    {
        Error { message, kind: error_kind }
    }

    pub fn message(&self) -> (r: &str)
        ensures
            r@ == self.spec_message(),
    {
        self.message.as_str()
    }

    pub fn kind(&self) -> (r: &ErrorKind)
        ensures
            r == self.spec_kind(),
    {
        &self.kind
    }
}

pub type PopResult<T> = Result<T, Error>;

} // verus!
