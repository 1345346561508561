//! The error taxonomy shared by every component of the library.
//!
//! Repository and crypto-primitive failures are never handed to a caller
//! verbatim: they are classified into this finite enumeration once, at the
//! point where they arise.

use vstd::prelude::*;

verus! {

/// The categories an operation of this library can fail with.
///
/// - `Authentication`: bad credentials, or a token whose signature, expiry or
///   audience check failed. "No such user" and "wrong password" are reported
///   identically at the login boundary to prevent user enumeration.
/// - `Validation`: malformed input, such as an id that is not a canonical
///   UUID text, or an operation on a user with no provisioned secret.
/// - `NotFound`: a resolvable entity is absent.
/// - `Mfa`: a one-time-code mismatch or a violation of the
///   authentication-methods gating rule.
/// - `Internal`: a failure of an underlying engine (password hashing,
///   signing); routine caller errors are never mapped here.
#[derive(Clone, Copy, Debug, PartialEq, Eq, Structural)]
pub enum AuthError {
    Authentication,
    Validation,
    NotFound,
    Mfa,
    Internal,
}

impl AuthError {
    /// A short stable tag for transport layers to render.
    pub fn as_text(&self) -> (r: &'static str)
        ensures
            r@ == self.text_spec(),
    {
        match self {
            AuthError::Authentication => "authentication error",
            AuthError::Validation => "validation error",
            AuthError::NotFound => "not found",
            AuthError::Mfa => "mfa error",
            AuthError::Internal => "internal error",
        }
    }

    pub open spec fn text_spec(&self) -> Seq<char> {
        match self {
            AuthError::Authentication => "authentication error"@,
            AuthError::Validation => "validation error"@,
            AuthError::NotFound => "not found"@,
            AuthError::Mfa => "mfa error"@,
            AuthError::Internal => "internal error"@,
        }
    }
}

} // verus!
