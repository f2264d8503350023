//! The failures that the use cases report.

use vstd::prelude::*;

verus! {

/// What the storage reports when a request cannot be served.
#[derive(Debug, Clone, Copy, PartialEq, Eq, Structural)]
pub enum RepoError {
    /// The record asked for does not exist.
    NotFound,
    /// A record with the same identity exists already.
    AlreadyExists,
    /// The submitted version does not follow the stored one.
    InvalidVersion,
    /// Any other failure of the storage itself.
    Other,
}

/// What is wrong with a request.
#[derive(Debug, Clone, Copy, PartialEq, Eq, Structural)]
pub enum ParameterError {
    /// The API token belongs to no organization.
    Unauthorized,
    /// The account that asks is not the account that is asked about.
    Forbidden,
    /// The bounding box is malformed.
    Bbox,
}

/// Any failure of a use case.
#[derive(Debug, Clone, Copy, PartialEq, Eq, Structural)]
pub enum Error {
    /// The request was refused.
    Parameter(ParameterError),
    /// The storage refused or failed.
    Repo(RepoError),
    /// The password could not be hashed.
    Pwhash,
}

} // verus!
