use vstd::prelude::*;

use crate::errors::GHDError;

verus! {

/// A user record as the REST identity and user-lookup endpoints return it.
/// The application deserializes the wire JSON into this shape and hands it
/// to the library.
#[derive(Debug)]
pub struct GithubUserReply {
    pub login: String,
    pub id: i64,
    pub node_id: String,
    pub avatar_url: String,
    pub name: String,
}

/// The domain error for a remote HTTP status code.
///
/// This classification is what the refresh engine branches on: an
/// authentication rejection invalidates the credential, a missing resource is
/// logged and skipped, rate limiting and malformed requests are retriable,
/// and everything else is unclassified.
pub open spec fn classify_status_spec(code: u16) -> GHDError {
    if code == 401 || code == 403 {
        GHDError::CredentialInvalid
    } else if code == 404 {
        GHDError::ResourceNotFound
    } else if code == 400 || code == 429 {
        GHDError::TransientError
    } else {
        GHDError::UnknownError
    }
}

/// Classify a non-success HTTP status code from the remote API into the
/// domain error taxonomy.
pub fn classify_status(code: u16) -> (r: GHDError)
    ensures
        r == classify_status_spec(code),
{
    if code == 401 || code == 403 {
        GHDError::CredentialInvalid
    } else if code == 404 {
        GHDError::ResourceNotFound
    } else if code == 400 || code == 429 {
        GHDError::TransientError
    } else {
        GHDError::UnknownError
    }
}

} // verus!
