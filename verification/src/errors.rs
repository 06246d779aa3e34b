//! The error taxonomy of the authority. Storage and crypto internals are
//! never surfaced verbatim: they collapse to the internal-error variants.
use vstd::prelude::*;

verus! {

/// Outcome taxonomy of a credentials check.
#[derive(Clone, Copy, Debug, PartialEq, Eq, Structural)]
pub enum UserFromCredentialsError {
    /// No account matches the email.
    NotFound,
    /// Crypto or storage failure; detail is deliberately withheld.
    InternalError,
    /// The account exists but the password does not match.
    InvalidPassword,
}

/// Outcome taxonomy of presenting a signed claims token.
#[derive(Clone, Copy, Debug, PartialEq, Eq, Structural)]
pub enum TokenError {
    /// Validly signed, but past its expiry instant.
    Expired,
    /// Not the wire format's shape.
    Malformed,
    /// The keyed tag does not match the payload under the verifier's key.
    SignatureInvalid,
    /// Validly signed and unexpired, but superseded by a more recently
    /// issued token for the same purpose and target.
    Stale,
}

/// Outcome taxonomy of provisioning a tenant.
#[derive(Clone, Copy, Debug, PartialEq, Eq, Structural)]
pub enum ProvisionError {
    /// A unique field (email or username) is already taken.
    Conflict,
    /// Password hashing failed; nothing was written.
    InternalError,
}

} // verus!
