//! Error values of the library.
//!
//! Each error carries no data; `message` returns the text a presenter would
//! show for it.

use vstd::prelude::*;

verus! {

/// The configured provider name is not one of the known set.
#[derive(Debug, Clone, PartialEq, Eq, Structural)]
pub struct UnsupportApiError;

impl UnsupportApiError {
    /// The text a presenter shows for this error.
    pub fn message(&self) -> (r: String)
        ensures
            r@ == "unsupported api"@,
    {
        String::from_str("unsupported api")
    }
}

/// The process runs on an operating system without a text source.
#[derive(Debug, Clone, PartialEq, Eq, Structural)]
pub struct UnsupportOsError;

impl UnsupportOsError {
    /// The text a presenter shows for this error.
    pub fn message(&self) -> (r: String)
        ensures
            r@ == "unsupported os"@,
    {
        String::from_str("unsupported os")
    }
}

/// A credentialed provider was selected without a usable credential.
#[derive(Debug, Clone, PartialEq, Eq, Structural)]
pub struct DeepLEmptyAuthKeyError;

impl DeepLEmptyAuthKeyError {
    /// The text a presenter shows for this error.
    pub fn message(&self) -> (r: String)
        ensures
            r@ == "please privode a deepl auth key"@,
    {
        String::from_str("please privode a deepl auth key")
    }
}

/// A provider response does not match the shape expected for the requested
/// mode.
#[derive(Debug, Clone, PartialEq, Eq, Structural)]
pub struct MalformedResponseError;

impl MalformedResponseError {
    /// The text a presenter shows for this error.
    pub fn message(&self) -> (r: String)
        ensures
            r@ == "malformed provider response"@,
    {
        String::from_str("malformed provider response")
    }
}

/// Why a translation attempt could not even be planned. An unknown provider
/// is a configuration error to surface at startup; a missing credential is
/// recoverable at the poll-cycle boundary.
#[derive(Debug, Clone, Copy, PartialEq, Eq, Structural)]
pub enum PlanError {
    /// The configured provider name is not one of the known set.
    UnsupportedApi,
    /// The commercial provider was selected without a usable credential.
    EmptyAuthKey,
}

impl PlanError {
    /// The text a presenter shows for this error.
    pub fn message(&self) -> (r: String)
        ensures
            *self is UnsupportedApi ==> r@ == "unsupported api"@,
            *self is EmptyAuthKey ==> r@ == "please privode a deepl auth key"@,
    {
        match self {
            PlanError::UnsupportedApi => UnsupportApiError.message(),
            PlanError::EmptyAuthKey => DeepLEmptyAuthKeyError.message(),
        }
    }
}

} // verus!
