use vstd::prelude::*;

verus! {

/// Error taxonomy shared by the credential store, the remote-client
/// classification and the refresh engine.
///
/// `NeverRefreshed` is a sentinel rather than a true failure: it reports that
/// a tracked user has no successful refresh on record and therefore always
/// counts as stale.
#[derive(Clone, Copy, Debug, PartialEq, Eq, Structural)]
pub enum GHDError {
    /// No credential has ever been stored.
    CredentialMissing,
    /// The stored credential was rejected by the remote side and has been
    /// (or must be) marked invalid.
    CredentialInvalid,
    /// A user, issue or pull request does not exist, locally or remotely.
    ResourceNotFound,
    /// The repository named in a pull-request detail query does not exist.
    RepositoryNotFound,
    /// A tracked user has never completed a refresh.
    NeverRefreshed,
    /// A retriable failure: rate limiting or a malformed remote response.
    TransientError,
    /// Any other, unclassified failure.
    UnknownError,
    /// The persistent store carries a schema version newer than this code
    /// understands; opening it would corrupt data, so startup must abort.
    SchemaFromFuture,
}

impl GHDError {
    /// A short diagnostic label for logs and user-facing messages.
    pub fn message(&self) -> (r: &'static str)
        ensures
            r@ == self.message_spec(),
    {
        match self {
            GHDError::CredentialMissing => "no credential set",
            GHDError::CredentialInvalid => "credential invalid",
            GHDError::ResourceNotFound => "resource not found",
            GHDError::RepositoryNotFound => "repository not found",
            GHDError::NeverRefreshed => "never refreshed",
            GHDError::TransientError => "transient error",
            GHDError::UnknownError => "unknown error",
            GHDError::SchemaFromFuture => "schema version from the future",
        }
    }

    pub open spec fn message_spec(self) -> Seq<char> {
        match self {
            GHDError::CredentialMissing => "no credential set"@,
            GHDError::CredentialInvalid => "credential invalid"@,
            GHDError::ResourceNotFound => "resource not found"@,
            GHDError::RepositoryNotFound => "repository not found"@,
            GHDError::NeverRefreshed => "never refreshed"@,
            GHDError::TransientError => "transient error"@,
            GHDError::UnknownError => "unknown error"@,
            GHDError::SchemaFromFuture => "schema version from the future"@,
        }
    }
}

} // verus!
