use vstd::prelude::*;

verus! {

/// Every failure the token lifecycle can surface to a caller.
///
/// The entity and the upstream client never recover from malformed input or
/// a rejection; the coordinator recovers nothing either and propagates each
/// failure as one of these variants.
#[derive(Debug)]
pub enum Error {
    /// No token was ever issued for the requested scope.
    NotFound,
    /// An insert found an existing row for the same scope.
    Conflict,
    /// A required field was missing from, or had the wrong type in, the
    /// upstream token response.
    MalformedUpstreamResponse,
    /// The upstream answered with an error field; the payload carries its text.
    UpstreamRejected(String),
    /// The upstream could not be reached, or the call timed out.
    UpstreamUnreachable,
    /// A refresh was needed but the stored token holds no refresh token;
    /// the scope must be re-authorized out of band.
    MissingRefreshToken,
    /// The backing store failed; the payload carries the operation's context.
    StoreError(String),
    /// A refresh succeeded upstream but persisting the result failed: the
    /// caller holds a fresh token while the store may still be stale.
    PersistenceInconsistency,
}

impl Error {
    /// A short, secret-free description for logs and test output.
    pub fn message(&self) -> (r: &'static str) {
        match self {
            Error::NotFound => "no token stored for the scope",
            Error::Conflict => "a token for the scope already exists",
            Error::MalformedUpstreamResponse => "upstream response was missing a required field",
            Error::UpstreamRejected(_) => "upstream rejected the exchange",
            Error::UpstreamUnreachable => "upstream could not be reached",
            Error::MissingRefreshToken => "stored token has no refresh token",
            Error::StoreError(_) => "the token store failed",
            Error::PersistenceInconsistency => "refresh succeeded but persisting it failed",
        }
    }
}

} // verus!
