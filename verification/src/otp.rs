//! The second-factor lifecycle: provision, confirm, check, disable.
//!
//! Per user the factor moves between three states: disabled (no secret),
//! provisioned (secret stored, not yet confirmed), and enabled-verified
//! (a correct code has been seen). A code is accepted for the current
//! 30-second step and its immediate neighbors, and only for the secret
//! stored now: overwriting the secret invalidates all earlier codes.

use vstd::prelude::*;

use crate::errors::AuthError;
use crate::ext::{base32_encode, base32_of, random_secret, totp_code, totp_code_at};
use crate::ids::{parse_user_id, parsed_id};
use crate::models::{DisableOTPSchema, GenerateOTPSchema, OtpGenerateData, VerifyOTPSchema};
use crate::store::{clone_secret, lookup, UserStore};
use vstd::string::StringExecFns;

verus! {

/// The largest clock value the code check is specified for; far beyond any
/// realistic epoch time, it keeps the step arithmetic in range.
pub open spec fn max_now() -> u64 {
    0x0100_0000_0000_0000
}

/// Whether `code` is accepted for `secret` at time `now`: it must be the
/// code of the current 30-second step or of one of its two neighbors.
pub open spec fn code_accepted(secret: Seq<u8>, code: Seq<char>, now: u64) -> bool {
    ||| code == totp_code(secret, ((now / 30) - 1) as u64)
    ||| code == totp_code(secret, now / 30)
    ||| code == totp_code(secret, ((now / 30) + 1) as u64)
}

/// Codes of the current step and of its immediate neighbors are accepted;
/// conversely an accepted code always equals the code of one of those
/// three steps, so a code minted for any other step is rejected unless its
/// six digits happen to coincide with one of them.
pub proof fn lemma_adjacent_step_codes(secret: Seq<u8>, code: Seq<char>, now: u64, s: u64)
    requires
        30 <= now <= max_now(),
    ensures
        ((now / 30) - 1 <= s <= (now / 30) + 1) ==> code_accepted(
            secret,
            totp_code(secret, s),
            now,
        ),
        code_accepted(secret, code, now) ==> (code == totp_code(secret, ((now / 30) - 1) as u64)
            || code == totp_code(secret, now / 30) || code == totp_code(
            secret,
            ((now / 30) + 1) as u64,
        )),
{
    if (now / 30) - 1 <= s <= (now / 30) + 1 {
        assert(s == ((now / 30) - 1) as u64 || s == now / 30 || s == ((now / 30) + 1) as u64);
    }
}

/// The enrollment URI embedding issuer, account label, and secret.
pub open spec fn otp_uri_spec(email: Seq<char>, secret: Seq<char>) -> Seq<char> {
    "otpauth://totp/AuthApp:"@ + email + "?secret="@ + secret + "&issuer=AuthApp"@
}

/// Builds the enrollment URI.
pub fn otp_uri(email: &str, secret: &str) -> (r: String)
    ensures
        r@ == otp_uri_spec(email@, secret@),
{
    let mut s = String::from_str("otpauth://totp/AuthApp:");
    s.append(email);
    s.append("?secret=");
    s.append(secret);
    s.append("&issuer=AuthApp");
    s
}

/// Compares `code` against the three acceptable steps' codes.
///
/// A code that is not exactly six digits can never equal a generated code,
/// so it is rejected by these comparisons without reaching the generator's
/// candidates.
pub fn code_matches(secret: &Vec<u8>, code: &str, now: u64) -> (r: bool)
    requires
        secret@.len() >= 16,
        30 <= now <= max_now(),
    ensures
        r == code_accepted(secret@, code@, now),
{
    let step = now / 30;
    assert(step >= 1);
    assert(step <= now);
    assert(step + 1 <= 0x0111_1111_1111_1111);
    let t0 = totp_code_at(secret, step - 1);
    let t1 = totp_code_at(secret, step);
    let t2 = totp_code_at(secret, step + 1);
    let c = String::from_str(code);
    let r = c == t0 || c == t1 || c == t2;
    r
}

/// Provisions a fresh secret for the user: at least 160 bits of random
/// material, stored base32-encoded with its enrollment URI, the factor
/// enabled, the verified flag left as it was. Any prior secret is
/// overwritten, so codes generated against it stop being accepted.
pub fn generate_otp(store: &mut UserStore, data: &GenerateOTPSchema) -> (r: Result<
    OtpGenerateData,
    AuthError,
>)
    requires
        old(store).wf(),
    ensures
        final(store).wf(),
        r matches Err(e) ==> *final(store) == *old(store) && ((e == AuthError::Validation
            && parsed_id(data.user_id@) is None) || (e == AuthError::NotFound && (
        parsed_id(data.user_id@) matches Some(uid) && lookup(old(store).users@, uid) is None))),
        r is Ok ==> parsed_id(data.user_id@) is Some,
        r matches Ok(d) ==> (parsed_id(data.user_id@) matches Some(uid) ==> ({
            &&& lookup(old(store).users@, uid) is Some
            &&& lookup(final(store).users@, uid) matches Some(u2) && u2.otp_enabled && (
            u2.otp_verified == (lookup(old(store).users@, uid)->0).otp_verified) && ((
            u2.otp_secret) matches Some(sec) && sec@.len() == 21 && d.otp_base32@ == base32_of(
                sec@,
            )) && ((u2.otp_base32) matches Some(b) && b@ == d.otp_base32@) && ((u2.otp_auth_url)
                matches Some(a) && a@ == d.otp_auth_url@) && (u2.username@ == (lookup(
                old(store).users@,
                uid,
            )->0).username@ && u2.email@ == (lookup(old(store).users@, uid)->0).email@
                && u2.password_hash@ == (lookup(old(store).users@, uid)->0).password_hash@)
            &&& d.otp_auth_url@ == otp_uri_spec(data.email@, d.otp_base32@)
            &&& forall|x: u128|
                x != uid ==> lookup(final(store).users@, x) == lookup(old(store).users@, x)
        })),
{
    let uid = match parse_user_id(data.user_id.as_str()) {
        Ok(n) => n,
        Err(_) => {
            return Err(AuthError::Validation);
        },
    };
    if store.get_user_by_id(uid).is_none() {
        return Err(AuthError::NotFound);
    }
    let secret = random_secret();
    let otp_base32 = base32_encode(&secret);
    let otp_auth_url = otp_uri(data.email.as_str(), otp_base32.as_str());
    let b32_out = otp_base32.clone();
    let url_out = otp_auth_url.clone();
    let found = store.update_user_otp(uid, secret, otp_base32, otp_auth_url);
    assert(found);
    Ok(OtpGenerateData { otp_base32: b32_out, otp_auth_url: url_out })
}

/// Confirms the provisioned secret: on a correct code for the current or
/// neighboring step, marks the factor as verified; on a wrong code the
/// state is unchanged.
pub fn verify_otp(store: &mut UserStore, data: &VerifyOTPSchema, now: u64) -> (r: Result<
    (),
    AuthError,
>)
    requires
        old(store).wf(),
        30 <= now <= max_now(),
    ensures
        final(store).wf(),
        r matches Err(e) ==> *final(store) == *old(store),
        r == Err::<(), AuthError>(AuthError::Validation) <==> (parsed_id(data.user_id@) is None
            || (parsed_id(data.user_id@) matches Some(uid) && (lookup(old(store).users@, uid)
            matches Some(u) && !u.otp_enabled))),
        r == Err::<(), AuthError>(AuthError::NotFound) <==> (parsed_id(data.user_id@) matches Some(
            uid,
        ) && lookup(old(store).users@, uid) is None),
        parsed_id(data.user_id@) matches Some(uid) ==> (lookup(old(store).users@, uid)
            matches Some(u) ==> (u.otp_enabled ==> ({
            let sec = u.otp_secret->0;
            &&& code_accepted(sec@, data.token@, now) ==> (r is Ok && (lookup(
                final(store).users@,
                uid,
            ) matches Some(u2) && u2.otp_enabled && u2.otp_verified && ((u2.otp_secret)
                matches Some(s2) && s2@ == sec@) && ((u2.otp_base32) matches Some(b2) && b2@ == (
            u.otp_base32->0)@) && ((u2.otp_auth_url) matches Some(a2) && a2@ == (
            u.otp_auth_url->0)@) && u2.username@ == u.username@ && u2.email@ == u.email@
                && u2.password_hash@ == u.password_hash@) && (forall|x: u128|
                x != uid ==> lookup(final(store).users@, x) == lookup(old(store).users@, x)))
            &&& !code_accepted(sec@, data.token@, now) ==> r == Err::<(), AuthError>(
                AuthError::Mfa,
            )
        }))),
{
    let uid = match parse_user_id(data.user_id.as_str()) {
        Ok(n) => n,
        Err(_) => {
            return Err(AuthError::Validation);
        },
    };
    let sec: Vec<u8>;
    match store.get_user_by_id(uid) {
        None => {
            return Err(AuthError::NotFound);
        },
        Some(u) => {
            if !u.otp_enabled {
                return Err(AuthError::Validation);
            }
            proof {
                crate::store::lemma_lookup_found(store.users@, uid);
                let i = choose|i: int|
                    0 <= i < store.users@.len() && store.users@[i] == *u;
                assert(crate::store::user_wf(store.users@[i]));
            }
            sec = match clone_secret(&u.otp_secret) {
                Some(s) => s,
                None => {
                    assert(false);
                    return Err(AuthError::Internal);
                },
            };
            assert(sec@.len() == 21);
        },
    }
    if code_matches(&sec, data.token.as_str(), now) {
        let ok = store.verify_user_otp(uid);
        assert(ok);
        Ok(())
    } else {
        Err(AuthError::Mfa)
    }
}

/// Checks a code for an already-enabled factor without changing any state;
/// used for the step-up stage.
pub fn validate_otp(store: &UserStore, data: &VerifyOTPSchema, now: u64) -> (r: Result<
    (),
    AuthError,
>)
    requires
        store.wf(),
        30 <= now <= max_now(),
    ensures
        r == Err::<(), AuthError>(AuthError::Validation) <==> (parsed_id(data.user_id@) is None
            || (parsed_id(data.user_id@) matches Some(uid) && (lookup(store.users@, uid)
            matches Some(u) && !u.otp_enabled))),
        r == Err::<(), AuthError>(AuthError::NotFound) <==> (parsed_id(data.user_id@) matches Some(
            uid,
        ) && lookup(store.users@, uid) is None),
        parsed_id(data.user_id@) matches Some(uid) ==> (lookup(store.users@, uid) matches Some(
            u,
        ) ==> (u.otp_enabled ==> ({
            let sec = u.otp_secret->0;
            &&& code_accepted(sec@, data.token@, now) ==> r is Ok
            &&& !code_accepted(sec@, data.token@, now) ==> r == Err::<(), AuthError>(
                AuthError::Mfa,
            )
        }))),
{
    let uid = match parse_user_id(data.user_id.as_str()) {
        Ok(n) => n,
        Err(_) => {
            return Err(AuthError::Validation);
        },
    };
    let sec: Vec<u8>;
    match store.get_user_by_id(uid) {
        None => {
            return Err(AuthError::NotFound);
        },
        Some(u) => {
            if !u.otp_enabled {
                return Err(AuthError::Validation);
            }
            proof {
                crate::store::lemma_lookup_found(store.users@, uid);
                let i = choose|i: int|
                    0 <= i < store.users@.len() && store.users@[i] == *u;
                assert(crate::store::user_wf(store.users@[i]));
            }
            sec = match clone_secret(&u.otp_secret) {
                Some(s) => s,
                None => {
                    assert(false);
                    return Err(AuthError::Internal);
                },
            };
            assert(sec@.len() == 21);
        },
    }
    if code_matches(&sec, data.token.as_str(), now) {
        Ok(())
    } else {
        Err(AuthError::Mfa)
    }
}

/// Turns the factor off: clears the secret, the URI and both flags.
/// Disabling an account whose factor is already off succeeds as a no-op.
pub fn disable_otp(store: &mut UserStore, data: &DisableOTPSchema) -> (r: Result<(), AuthError>)
    requires
        old(store).wf(),
    ensures
        final(store).wf(),
        r matches Err(e) ==> *final(store) == *old(store) && ((e == AuthError::Validation
            && parsed_id(data.user_id@) is None) || (e == AuthError::NotFound && (
        parsed_id(data.user_id@) matches Some(uid) && lookup(old(store).users@, uid) is None))),
        r is Ok <==> (parsed_id(data.user_id@) matches Some(uid) && lookup(
            old(store).users@,
            uid,
        ) is Some),
        r is Ok ==> ({
            let uid = parsed_id(data.user_id@)->0;
            &&& lookup(final(store).users@, uid) matches Some(u2) && !u2.otp_enabled
                && !u2.otp_verified && u2.otp_secret is None && u2.otp_base32 is None
                && u2.otp_auth_url is None && u2.id == uid && (u2.username@ == (lookup(
                old(store).users@,
                uid,
            )->0).username@ && u2.email@ == (lookup(old(store).users@, uid)->0).email@
                && u2.password_hash@ == (lookup(old(store).users@, uid)->0).password_hash@)
            &&& forall|x: u128|
                x != uid ==> lookup(final(store).users@, x) == lookup(old(store).users@, x)
        }),
{
    let uid = match parse_user_id(data.user_id.as_str()) {
        Ok(n) => n,
        Err(_) => {
            return Err(AuthError::Validation);
        },
    };
    let found = store.disable_user_otp(uid);
    if found {
        Ok(())
    } else {
        Err(AuthError::NotFound)
    }
}

} // verus!
