//! The closed error taxonomy of the access-control core.
//!
//! Callers match on the variant; the payload of `Unexpected` is an opaque
//! cause kept only for server-side logging and never matched on.

use vstd::prelude::*;

verus! {

/// Every failure the core can report.
#[derive(Debug, PartialEq, Eq)]
pub enum Error {
    /// The credentials are missing or invalid.
    Unauthorized,
    /// The caller does not have the required permissions, or the path tried
    /// to escape the storage root.
    InvalidPermissions,
    /// A requested resource was not found.
    NotFound,
    /// The incoming request is malformed.
    BadRequest,
    /// The requested operation is only valid on directories.
    NotADirectory,
    /// The requested operation is only valid on files.
    NotAFile,
    /// An unexpected collaborator failure; the payload describes the cause
    /// for server-side logging and is never shown to a caller.
    Unexpected(String),
}

impl Error {
    /// The HTTP status code this error is reported with.
    pub fn status_code(&self) -> (code: u16)
        ensures
            code == self.spec_status_code(),
    {
        match self {
            Error::Unauthorized => 401,
            Error::InvalidPermissions => 403,
            Error::NotFound => 404,
            Error::BadRequest => 400,
            Error::NotADirectory => 400,
            Error::NotAFile => 400,
            Error::Unexpected(_) => 500,
        }
    }

    /// The HTTP status code, as a specification-level value.
    pub open spec fn spec_status_code(&self) -> u16 {
        match self {
            Error::Unauthorized => 401,
            Error::InvalidPermissions => 403,
            Error::NotFound => 404,
            Error::BadRequest => 400,
            Error::NotADirectory => 400,
            Error::NotAFile => 400,
            Error::Unexpected(_) => 500,
        }
    }

    /// The fixed message shown to the caller. It never depends on the cause
    /// payload, so no internal detail can leak through it.
    pub fn public_message(&self) -> (msg: &'static str)
        ensures
            self is Unauthorized ==> msg@ == "unauthorized"@,
            self is InvalidPermissions ==> msg@ == "permission denied"@,
            self is NotFound ==> msg@ == "not found"@,
            self is BadRequest ==> msg@ == "bad request"@,
            self is NotADirectory ==> msg@ == "path is not a directory"@,
            self is NotAFile ==> msg@ == "path is not a file"@,
            self is Unexpected ==> msg@ == "internal server error"@,
    {
        match self {
            Error::Unauthorized => "unauthorized",
            Error::InvalidPermissions => "permission denied",
            Error::NotFound => "not found",
            Error::BadRequest => "bad request",
            Error::NotADirectory => "path is not a directory",
            Error::NotAFile => "path is not a file",
            Error::Unexpected(_) => "internal server error",
        }
    }

    /// Whether the response must carry a Basic-auth challenge.
    pub fn requires_basic_challenge(&self) -> (b: bool)
        ensures
            b == (self is Unauthorized),
    {
        matches!(self, Error::Unauthorized)
    }
}

} // verus!
