use vstd::prelude::*;

verus! {

/// Every failure the core reports to its callers.
#[derive(Debug, Clone, Copy, PartialEq, Eq, Structural)]
pub enum AuthError {
    /// No account matches the e-mail, or the password does not match.
    InvalidCredentials,
    /// The account exists but its login is disabled.
    AccountDisabled,
    /// The token is malformed, carries a bad signature or unreadable claims.
    InvalidSignature,
    /// The token is well signed but its expiry is not after the current time.
    Expired,
    /// The token is valid but no matching session record exists.
    SessionExpired,
    /// The persistence collaborator failed; nothing was written.
    StorageError,
    /// The token could not be produced.
    SigningError,
}

} // verus!
