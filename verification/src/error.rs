//! The error kinds a lookup can produce.

use vstd::prelude::*;

verus! {

/// Why a lookup failed.
#[derive(Debug, Clone, Copy, PartialEq, Eq, Structural)]
pub enum Error {
    /// Normalization rejected the query: a disallowed character, or the
    /// ASCII-compatible encoding of an internationalized label failed.
    InvalidDomain,
    /// A server response could not be decoded as text.
    InternalError,
    /// Address resolution or every connection attempt failed before any
    /// hop had succeeded.
    NoConnection,
    /// An I/O failure on an already-open stream.
    TcpStreamError,
}

impl Error {
    /// A short description of the error, for display by callers.
    pub fn message(&self) -> (r: &'static str)
        ensures
            r@ == self.message_spec(),
    {
        match self {
            Error::InvalidDomain => "Invalid domain",
            Error::InternalError => "InternalError",
            Error::NoConnection => "NoConnection",
            Error::TcpStreamError => "TcpStreamError",
        }
    }

    pub open spec fn message_spec(&self) -> Seq<char> {
        match self {
            Error::InvalidDomain => "Invalid domain"@,
            Error::InternalError => "InternalError"@,
            Error::NoConnection => "NoConnection"@,
            Error::TcpStreamError => "TcpStreamError"@,
        }
    }
}

} // verus!
