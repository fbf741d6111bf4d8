//! The errors of the library.

use vstd::prelude::*;

verus! {

/// What can go wrong in building a request or in reading a record.
#[derive(Debug, Clone, Copy, PartialEq, Eq, Structural)]
pub enum ErrorKind {
    /// The parameters of a request could not be encoded as a query string.
    Encode,
    /// A link of a record could not be resolved against the service's address.
    InvalidUrl,
    /// The address of an image has no `id` parameter.
    MissingId,
    /// An identifier is not of the grammar.
    InvalidId,
}

impl ErrorKind {
    /// The message of the error, as characters.
    pub open spec fn spec_message(self) -> Seq<char> {
        match self {
            ErrorKind::Encode => "failed to encode query"@,
            ErrorKind::InvalidUrl => "invalid URL"@,
            ErrorKind::MissingId => "missing id"@,
            ErrorKind::InvalidId => "invalid ID"@,
        }
    }

    /// The message of the error.
    pub fn message(&self) -> (s: &'static str)
        ensures
            s@ == self.spec_message(),
    {
        match self {
            ErrorKind::Encode => "failed to encode query",
            ErrorKind::InvalidUrl => "invalid URL",
            ErrorKind::MissingId => "missing id",
            ErrorKind::InvalidId => "invalid ID",
        }
    }
}

} // verus!
