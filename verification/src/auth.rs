//! The authentication flows: credential check, registration, login, and
//! the step-up from a password-only session to full trust.
//!
//! Login deliberately reports a missing account and a wrong password with
//! the same error, to prevent user enumeration. A user with the second
//! factor enabled never receives durable tokens at login; only the
//! five-minute step-up token, to be exchanged together with a correct
//! one-time code.

use vstd::prelude::*;

use crate::claims::Claims;
use crate::errors::AuthError;
use crate::ext::{bcrypt_hash, bcrypt_matches, bcrypt_verify, bcrypt_wf};
use crate::ids::format_user_id;
use crate::models::{LoginMfaData, LoginOutcome, LoginRequest, OtpSueecessData, RegisterRequest,
    UserData};
use crate::otp::{code_accepted, code_matches, max_now};
use crate::store::{clone_secret, lookup, lookup_email, lookup_username, User, UserStore};
use crate::text::ascii_chars;
use crate::token::{
    claims_for, issue, sig_clean, token_chars, validate, validate_spec, TokenKind,
};
verus! {

/// The account a login identifier resolves to: by email first, then by
/// username.
pub open spec fn find_identity(s: Seq<User>, ident: Seq<char>) -> Option<User> {
    match lookup_email(s, ident) {
        Some(u) => Some(u),
        None => lookup_username(s, ident),
    }
}

/// Checks a supplied secret against a stored password hash. A mismatch is
/// an ordinary `false`; a broken hash text, and nothing else, is an
/// internal error.
pub fn verify_credentials(supplied: &str, stored_hash: &str) -> (r: Result<bool, AuthError>)
    ensures
        r is Ok <==> bcrypt_wf(stored_hash@),
        r matches Ok(b) ==> b == bcrypt_matches(supplied@, stored_hash@),
        r matches Err(e) ==> e == AuthError::Internal,
{
    match bcrypt_verify(supplied, stored_hash) {
        Some(b) => Ok(b),
        None => Err(AuthError::Internal),
    }
}

/// Creates an account with a freshly salted password hash and no second
/// factor. A taken username or email is a validation error; a hash-engine
/// failure is an internal one.
pub fn register(store: &mut UserStore, data: &RegisterRequest) -> (r: Result<UserData, AuthError>)
    requires
        old(store).wf(),
        old(store).next_id < u128::MAX,
    ensures
        final(store).wf(),
        r matches Err(e) ==> *final(store) == *old(store) && (e == AuthError::Validation || e
            == AuthError::Internal),
        r == Err::<UserData, AuthError>(AuthError::Validation) <==> (lookup_email(
            old(store).users@,
            data.email@,
        ) is Some || lookup_username(old(store).users@, data.username@) is Some),
        r matches Ok(d) ==> ({
            let id = old(store).next_id;
            &&& d.id@ == ascii_chars(crate::ids::uuid_text(id))
            &&& d.email@ == data.email@
            &&& d.name@ == data.username@
            &&& final(store).next_id == id + 1
            &&& lookup(final(store).users@, id) matches Some(u) && u.username@ == data.username@
                && u.email@ == data.email@ && bcrypt_matches(data.password@, u.password_hash@)
                && bcrypt_wf(u.password_hash@) && !u.otp_enabled && !u.otp_verified
            &&& lookup_email(final(store).users@, data.email@) == lookup(final(store).users@, id)
            &&& lookup_username(final(store).users@, data.username@) == lookup(
                final(store).users@,
                id,
            )
            &&& forall|x: u128|
                x != id ==> lookup(final(store).users@, x) == lookup(old(store).users@, x)
        }),
{
    if store.get_user_by_email(data.email.as_str()).is_some() {
        return Err(AuthError::Validation);
    }
    if store.get_user_by_username(data.username.as_str()).is_some() {
        return Err(AuthError::Validation);
    }
    let hash = match bcrypt_hash(data.password.as_str()) {
        Some(h) => h,
        None => {
            return Err(AuthError::Internal);
        },
    };
    let id = store.create_user(data.username.as_str(), data.email.as_str(), hash.as_str());
    let d = UserData {
        id: format_user_id(id),
        email: data.email.clone(),
        name: data.username.clone(),
    };
    Ok(d)
}

/// Authenticates an identifier and password. With no second factor
/// enrolled the caller is fully trusted at once and receives the access
/// and refresh pair; with one enrolled, only the step-up token. An unknown
/// identifier and a wrong password are indistinguishable to the caller.
pub fn login(store: &UserStore, data: &LoginRequest, now: u64, key: &[u8]) -> (r: Result<
    LoginOutcome,
    AuthError,
>)
    requires
        store.wf(),
        key@.len() >= 32,
        now <= u64::MAX - 604800,
    ensures
        find_identity(store.users@, data.email@) is None ==> r == Err::<LoginOutcome, AuthError>(
            AuthError::Authentication,
        ),
        r matches Err(e) ==> e == AuthError::Authentication || e == AuthError::Internal,
        find_identity(store.users@, data.email@) matches Some(u) ==> ({
            &&& bcrypt_wf(u.password_hash@) ==> r != Err::<LoginOutcome, AuthError>(
                AuthError::Internal,
            )
            &&& !bcrypt_wf(u.password_hash@) ==> r == Err::<LoginOutcome, AuthError>(
                AuthError::Internal,
            )
            &&& !bcrypt_matches(data.password@, u.password_hash@) ==> r is Err
            &&& r == Err::<LoginOutcome, AuthError>(AuthError::Authentication)
                ==> !bcrypt_matches(data.password@, u.password_hash@)
            &&& (bcrypt_matches(data.password@, u.password_hash@) && r != Err::<
                LoginOutcome,
                AuthError,
            >(AuthError::Internal)) ==> (if u.otp_enabled {
                r matches Ok(o) && o matches LoginOutcome::MfaRequired(d) && d.mfa_token@
                    == token_chars(key@, claims_for(TokenKind::StepUp, u.id, now)) && sig_clean(
                    key@,
                    claims_for(TokenKind::StepUp, u.id, now),
                )
            } else {
                r matches Ok(o) && o matches LoginOutcome::LoggedIn(d) && d.access_token@
                    == token_chars(key@, claims_for(TokenKind::Access, u.id, now))
                    && d.refresh_token@ == token_chars(key@, claims_for(TokenKind::Refresh, u.id, now))
                    && sig_clean(key@, claims_for(TokenKind::Access, u.id, now)) && sig_clean(
                    key@,
                    claims_for(TokenKind::Refresh, u.id, now),
                ) && d.user.id@ == ascii_chars(crate::ids::uuid_text(u.id)) && d.user.email@
                    == u.email@ && d.user.name@ == u.username@
            })
            &&& u.otp_enabled ==> !(r matches Ok(o) && o is LoggedIn)
        }),
{
    let user: &User = match store.get_user_by_email(data.email.as_str()) {
        Some(u) => u,
        None => match store.get_user_by_username(data.email.as_str()) {
            Some(u) => u,
            None => {
                return Err(AuthError::Authentication);
            },
        },
    };
    let ok = match verify_credentials(data.password.as_str(), user.password_hash.as_str()) {
        Ok(b) => b,
        Err(_) => {
            return Err(AuthError::Internal);
        },
    };
    if !ok {
        return Err(AuthError::Authentication);
    }
    if user.otp_enabled {
        let mfa_token = issue(TokenKind::StepUp, user.id, now, key);
        Ok(LoginOutcome::MfaRequired(LoginMfaData { mfa_token }))
    } else {
        let access_token = issue(TokenKind::Access, user.id, now, key);
        let refresh_token = issue(TokenKind::Refresh, user.id, now, key);
        let user_data = UserData {
            id: format_user_id(user.id),
            email: user.email.clone(),
            name: user.username.clone(),
        };
        Ok(
            LoginOutcome::LoggedIn(
                OtpSueecessData { access_token, refresh_token, user: user_data },
            ),
        )
    }
}

/// Exchanges a fresh step-up token and a correct one-time code for the
/// durable token pair. A wrong code leaves every state unchanged, so the
/// caller may retry within the step-up token's lifetime.
pub fn step_up(store: &UserStore, token: &str, code: &str, now: u64, key: &[u8]) -> (r: Result<
    OtpSueecessData,
    AuthError,
>)
    requires
        store.wf(),
        key@.len() >= 32,
        30 <= now <= max_now(),
    ensures
        validate_spec(TokenKind::StepUp, key@, token@, now) matches Err(e) ==> r == Err::<
            OtpSueecessData,
            AuthError,
        >(e),
        validate_spec(TokenKind::StepUp, key@, token@, now) matches Ok(c) ==> ({
            &&& lookup(store.users@, c.sub) is None ==> r == Err::<OtpSueecessData, AuthError>(
                AuthError::NotFound,
            )
            &&& lookup(store.users@, c.sub) matches Some(u) ==> (if !u.otp_enabled {
                r == Err::<OtpSueecessData, AuthError>(AuthError::Validation)
            } else {
                let sec = u.otp_secret->0;
                &&& !code_accepted(sec@, code@, now) ==> r == Err::<OtpSueecessData, AuthError>(
                    AuthError::Mfa,
                )
                &&& code_accepted(sec@, code@, now) ==> (r matches Ok(d) && d.access_token@
                    == token_chars(key@, claims_for(TokenKind::Access, c.sub, now))
                    && d.refresh_token@ == token_chars(
                    key@,
                    claims_for(TokenKind::Refresh, c.sub, now),
                ) && sig_clean(key@, claims_for(TokenKind::Access, c.sub, now)) && sig_clean(
                    key@,
                    claims_for(TokenKind::Refresh, c.sub, now),
                ) && d.user.id@ == ascii_chars(crate::ids::uuid_text(c.sub)) && d.user.email@
                    == u.email@ && d.user.name@ == u.username@)
            })
        }),
{
    let c: Claims = match validate(TokenKind::StepUp, token, now, key) {
        Ok(c) => c,
        Err(e) => {
            return Err(e);
        },
    };
    let sec: Vec<u8>;
    let email_c: String;
    let name_c: String;
    let uid = c.sub;
    match store.get_user_by_id(uid) {
        None => {
            return Err(AuthError::NotFound);
        },
        Some(u) => {
            if !u.otp_enabled {
                return Err(AuthError::Validation);
            }
            proof {
                crate::store::lemma_lookup_found(store.users@, uid);
                let i = choose|i: int| 0 <= i < store.users@.len() && store.users@[i] == *u;
                assert(crate::store::user_wf(store.users@[i]));
            }
            sec = match clone_secret(&u.otp_secret) {
                Some(s) => s,
                None => {
                    assert(false);
                    return Err(AuthError::Internal);
                },
            };
            assert(sec@.len() == 21);
            email_c = u.email.clone();
            name_c = u.username.clone();
        },
    }
    if !code_matches(&sec, code, now) {
        return Err(AuthError::Mfa);
    }
    proof {
        assert(now <= u64::MAX - 604800);
    }
    let access_token = issue(TokenKind::Access, uid, now, key);
    let refresh_token = issue(TokenKind::Refresh, uid, now, key);
    let user_data = UserData { id: format_user_id(uid), email: email_c, name: name_c };
    Ok(OtpSueecessData { access_token, refresh_token, user: user_data })
}

/// The access token minted directly at login for a user with no second
/// factor carries both method proofs, so the access-token validator
/// accepts it while it is fresh, with the exact subject: enrolling no
/// factor is treated as trust-equivalent to a completed step-up.
pub proof fn lemma_login_access_token_validates(key: Seq<u8>, id: u128, now: u64, now2: u64)
    requires
        sig_clean(key, claims_for(TokenKind::Access, id, now)),
        now <= u64::MAX - 604800,
        now2 < now + 86400,
    ensures
        claims_for(TokenKind::Access, id, now).amr == crate::claims::Amr::PwdMfa,
        validate_spec(
            TokenKind::Access,
            key,
            token_chars(key, claims_for(TokenKind::Access, id, now)),
            now2,
        ) == Ok::<Claims, AuthError>(claims_for(TokenKind::Access, id, now)),
{
    crate::token::lemma_cross_kind_rejected(
        TokenKind::Access,
        TokenKind::Access,
        key,
        id,
        now,
        now2,
    );
}

} // verus!
