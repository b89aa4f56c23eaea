//! The error type of the OpenAI-compatible provider.

use vstd::prelude::*;

use crate::model::{ErrorKind, ModelProviderError};

verus! {

/// An error of the OpenAI-compatible provider: a kind, and the message
/// reported by the transport or the service.
#[derive(Debug)]
pub struct Error {
    /// The kind of this error.
    pub kind: ErrorKind,
    /// What the transport or the service reported.
    pub message: String,
}

impl Error {
    /// Creates a new error.
    pub fn new(message: String, kind: ErrorKind) -> (r: Self)
        ensures
            r.message@ == message@,
            r.kind == kind,
    {
        Error { message, kind }
    }

    /// Returns the error message.
    pub fn message(&self) -> (r: &str)
        ensures
            r@ == self.message@,
    {
        self.message.as_str()
    }
}

impl ModelProviderError for Error {
    fn kind(&self) -> (k: ErrorKind)
        ensures
            k == self.kind,
    {
        self.kind
    }
}

} // verus!
