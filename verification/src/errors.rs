//! The error taxonomy of the engine.

use vstd::prelude::*;

verus! {

/// Every failure the engine can report to a caller.
///
/// The first two classes are fatal: an identical retry would fail again, so
/// the cache suppresses immediate re-fetching after them. `CacheRefreshError`
/// and `ParseError` are retryable: the cache stays positioned so that the
/// very next query attempts the refresh again. `InvalidFilter` is a caller
/// input error and never touches the cache. `AuthOrUrlMissing` is raised by
/// the configuration layer before an engine is ever constructed.
#[derive(Clone, Copy, Debug, PartialEq, Eq, Structural)]
pub enum KokoError {
    /// The configuration names both a full URL and a credential, or neither.
    AuthOrUrlMissing,
    /// The rule service rejected the credentials (fatal).
    InvalidCredentials,
    /// The rule service could not be reached or answered an error (retryable).
    CacheRefreshError,
    /// The fetched payload could not be understood (retryable).
    ParseError,
    /// The configured endpoint is not a valid URL (fatal).
    InvalidUrl,
    /// The caller's filter expression is malformed.
    InvalidFilter,
}

impl KokoError {
    /// The stable numeric code under which this error crosses a process
    /// boundary.
    pub open spec fn spec_code(self) -> int {
        match self {
            KokoError::AuthOrUrlMissing => -1,
            KokoError::InvalidCredentials => -2,
            KokoError::CacheRefreshError => -3,
            KokoError::ParseError => -4,
            KokoError::InvalidUrl => -5,
            KokoError::InvalidFilter => -6,
        }
    }

    /// Returns the stable numeric code of this error.
    pub fn code(&self) -> (r: isize)
        ensures
            r == self.spec_code(),
    {
        match self {
            KokoError::AuthOrUrlMissing => -1,
            KokoError::InvalidCredentials => -2,
            KokoError::CacheRefreshError => -3,
            KokoError::ParseError => -4,
            KokoError::InvalidUrl => -5,
            KokoError::InvalidFilter => -6,
        }
    }
}

} // verus!
