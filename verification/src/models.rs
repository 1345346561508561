//! Request and response shapes exchanged with the transport layer.

use vstd::prelude::*;

verus! {

/// Login input: an identifier (email or username) and the secret.
pub struct LoginRequest {
    pub email: String,
    pub password: String,
}

pub struct RegisterRequest {
    pub username: String,
    pub email: String,
    pub password: String,
}

pub struct GenerateOTPSchema {
    pub email: String,
    pub user_id: String,
}

pub struct VerifyOTPSchema {
    pub user_id: String,
    pub token: String,
}

pub struct DisableOTPSchema {
    pub user_id: String,
}

/// The envelope the transport layer wraps every reply in.
pub struct ApiResponse<T> {
    pub status: String,
    pub message: String,
    pub data: Option<T>,
}

/// A user record as shown to callers: no password hash.
pub struct UserData {
    pub id: String,
    pub email: String,
    pub name: String,
}

/// A successful first step for an MFA-enabled user: only the step-up token.
pub struct LoginMfaData {
    pub mfa_token: String,
}

/// Full authentication: the durable token pair and the user.
pub struct OtpSueecessData {
    pub access_token: String,
    pub refresh_token: String,
    pub user: UserData,
}

/// What provisioning hands back: the secret's text and the enrollment URI.
pub struct OtpGenerateData {
    pub otp_base32: String,
    pub otp_auth_url: String,
}

/// The two shapes a successful login can take.
pub enum LoginOutcome {
    /// The password was right and a second factor is enrolled: prove it.
    MfaRequired(LoginMfaData),
    /// No second factor is enrolled: fully authenticated at once.
    LoggedIn(OtpSueecessData),
}

} // verus!
