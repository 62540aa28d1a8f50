//! The closed set of failures that the library reports to its callers.

use vstd::prelude::*;

verus! {

/// A failure surfaced by a repository, a use case or the request boundary.
#[derive(Debug, PartialEq, Eq)]
pub enum Error {
    /// The record asked for is absent.
    NotFound,
    /// The session or authentication collaborator refused the caller.
    Unauthorized,
    /// A request body, a path or an argument could not be decoded or is invalid.
    Validation(String),
    /// The backing store failed; the detail is kept for logs.
    Store(String),
    /// The operation is deliberately not supported by this store.
    NotImplemented,
}

pub type Result<T> = core::result::Result<T, Error>;

/// HTTP status code for a not-found failure.
pub const STATUS_NOT_FOUND: u16 = 404;
/// HTTP status code for an unauthorized caller.
pub const STATUS_UNAUTHORIZED: u16 = 401;
/// HTTP status code for every other failure.
pub const STATUS_BAD_REQUEST: u16 = 400;

impl Error {
    /// The status code under which the request boundary renders this error.
    pub open spec fn spec_status(&self) -> u16 {
        match self {
            Error::NotFound => STATUS_NOT_FOUND,
            Error::Unauthorized => STATUS_UNAUTHORIZED,
            _ => STATUS_BAD_REQUEST,
        }
    }

    /// Status code of the response that reports this error.
    pub fn status(&self) -> (r: u16)
        ensures
            r == self.spec_status(),
    {
        match self {
            Error::NotFound => STATUS_NOT_FOUND,
            Error::Unauthorized => STATUS_UNAUTHORIZED,
            _ => STATUS_BAD_REQUEST,
        }
    }

    /// Maps a failure of the backing store: a missing row becomes
    /// `NotFound`, anything else a `Store` error that keeps the detail.
    pub fn from_store_failure(row_not_found: bool, detail: String) -> (r: Error)
        ensures
            row_not_found ==> r == Error::NotFound,
            !row_not_found ==> r == Error::Store(detail),
    {
        if row_not_found {
            Error::NotFound
        } else {
            Error::Store(detail)
        }
    }
}

} // verus!
