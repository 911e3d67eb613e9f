//! Errors of pCloud operations and which of them are worth retrying.
use vstd::prelude::*;

use crate::text::str_chars;

verus! {

#[verifier::external_type_specification]
#[verifier::external_body]
pub struct ExIoError(std::io::Error);

/// Errors that can occur during pCloud API operations. Network errors carry
/// their message; file-system errors carry the `std::io::Error` itself, with
/// its kind.
#[derive(Debug)]
pub enum PCloudError {
    /// The pCloud API returned an error response.
    ApiError(String),
    /// A network error occurred during the HTTP request.
    NetworkError(String),
    /// An I/O error occurred reading or writing files.
    IoError(std::io::Error),
    /// The operation requires authentication, but no token is set.
    NotAuthenticated,
    /// The provided path is invalid or malformed.
    InvalidPath(String),
    /// The requested file or folder does not exist.
    FileNotFound(String),
    /// The operation timed out.
    Timeout(core::time::Duration),
    /// The transfer was interrupted and can be resumed.
    Interrupted(usize),
}

pub open spec fn starts_with(s: Seq<char>, p: Seq<char>) -> bool {
    s.len() >= p.len() && s.take(p.len() as int) == p
}

/// `s` starts with `prefix`.
pub fn str_starts_with(s: &str, prefix: &str) -> (b: bool)
    ensures
        b == starts_with(s@, prefix@),
{
    let a = str_chars(s);
    let p = str_chars(prefix);
    if a.len() < p.len() {
        return false;
    }
    for i in 0..p.len()
        invariant
            a@ == s@,
            p@ == prefix@,
            p@.len() <= a@.len(),
            forall|j: int| 0 <= j < i ==> a@[j] == p@[j],
    {
        if a[i] != p[i] {
            assert(a@.take(p@.len() as int)[i as int] != p@[i as int]);
            assert(a@.take(p@.len() as int) != p@);
            return false;
        }
    }
    assert(a@.take(p@.len() as int) == p@);
    true
}

/// A server-side failure: an API error whose message starts with `"HTTP error: 5"`.
pub open spec fn is_server_error(e: PCloudError) -> bool {
    e matches PCloudError::ApiError(s) && starts_with(s@, "HTTP error: 5"@)
}

/// The errors that the retry loop of API calls retries: network errors and
/// server-side HTTP failures.
pub open spec fn spec_retried(e: PCloudError) -> bool {
    e is NetworkError || is_server_error(e)
}

/// The errors that are likely transient: network errors, timeouts,
/// interruptions and server-side HTTP failures.
pub open spec fn spec_is_retryable(e: PCloudError) -> bool {
    e is NetworkError || e is Timeout || e is Interrupted || is_server_error(e)
}

fn server_error(e: &PCloudError) -> (b: bool)
    ensures
        b == is_server_error(*e),
{
    match e {
        PCloudError::ApiError(s) => str_starts_with(s.as_str(), "HTTP error: 5"),
        _ => false,
    }
}

impl PCloudError {
    /// Returns `true` if this error is likely transient and retrying may succeed.
    pub fn is_retryable(&self) -> (b: bool)
        ensures
            b == spec_is_retryable(*self),
    {
        match self {
            PCloudError::NetworkError(_) | PCloudError::Timeout(_) | PCloudError::Interrupted(_) => true,
            _ => server_error(self),
        }
    }

    /// Whether the retry loop of API calls tries again after this error,
    /// given how many attempts have failed so far (counting this one) and
    /// the retry limit: the error is a network or server-side failure and
    /// the limit is not yet exceeded.
    pub fn retried_after(&self, attempt: u32, max_retries: u32) -> (b: bool)
        ensures
            b == (spec_retried(*self) && attempt <= max_retries),
    {
        let retryable = match self {
            PCloudError::NetworkError(_) => true,
            _ => server_error(self),
        };
        retryable && attempt <= max_retries
    }
}

} // verus!
