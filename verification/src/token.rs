//! Issuing and validating signed token envelopes.
//!
//! A token is `header.payload.signature`: the fixed header segment, the
//! base64url text of the canonical claims JSON, and the HMAC-SHA256 tag of
//! the first two parts. Validation checks signature and expiry first, then
//! the audience for the expected kind, then the methods-gating rule.

use vstd::prelude::*;

use crate::b64::{
    all_b64url, b64_decode, b64_decode_exec, b64_encode, b64_encode_exec, is_b64url_byte,
    lemma_b64_alphabet, lemma_b64_round_trip,
};
use crate::claims::{
    Amr, Audience, Claims, build_claims_json, claims_json, lemma_claims_round_trip, parse_claims,
    spec_parse_claims,
};
use crate::errors::AuthError;
use crate::ext::{hs256_sig, hs256_sign};
use crate::text::{ascii_bytes, ascii_chars, lemma_ascii_chars_bytes};
use vstd::string::StrSliceExecFns;

verus! {

/// The three capabilities the issuer can mint.
#[derive(Clone, Copy, Debug, PartialEq, Eq, Structural)]
pub enum TokenKind {
    /// Proves password success only; a precondition for the step-up check.
    StepUp,
    /// Grants resource access.
    Access,
    /// Allows obtaining fresh tokens.
    Refresh,
}

pub open spec fn kind_aud(k: TokenKind) -> Audience {
    match k {
        TokenKind::StepUp => Audience::MfaVerification,
        TokenKind::Access => Audience::Api,
        TokenKind::Refresh => Audience::Refresh,
    }
}

pub open spec fn kind_amr(k: TokenKind) -> Amr {
    match k {
        TokenKind::StepUp => Amr::Pwd,
        TokenKind::Access => Amr::PwdMfa,
        TokenKind::Refresh => Amr::Absent,
    }
}

/// Lifetimes: five minutes, a day, a week.
pub open spec fn kind_lifetime(k: TokenKind) -> u64 {
    match k {
        TokenKind::StepUp => 300,
        TokenKind::Access => 86400,
        TokenKind::Refresh => 604800,
    }
}

/// The gating rule: a step-up token must prove the password and must not
/// already carry the second factor; an access token must carry it; a
/// refresh token carries no methods claim requirement.
pub open spec fn amr_ok(k: TokenKind, a: Amr) -> bool {
    match k {
        TokenKind::StepUp => a == Amr::Pwd,
        TokenKind::Access => a == Amr::PwdMfa,
        TokenKind::Refresh => true,
    }
}

/// The claim set minted for `kind` at time `now`.
pub open spec fn claims_for(k: TokenKind, sub: u128, now: u64) -> Claims {
    Claims { sub, exp: (now + kind_lifetime(k)) as u64, aud: kind_aud(k), amr: kind_amr(k) }
}

// `{"typ":"JWT","alg":"HS256"}`
pub open spec fn header_json() -> Seq<u8> {
    seq![
        123u8, 34, 116, 121, 112, 34, 58, 34, 74, 87, 84, 34, 44, 34, 97, 108, 103, 34, 58, 34,
        72, 83, 50, 53, 54, 34, 125,
    ]
}

/// The fixed first segment of every token.
pub open spec fn header_seg() -> Seq<u8> {
    b64_encode(header_json())
}

/// What the signature is computed over.
pub open spec fn signing_input(c: Claims) -> Seq<u8> {
    header_seg() + seq![46u8] + b64_encode(claims_json(c))
}

/// The whole token, as bytes.
pub open spec fn token_bytes(key: Seq<u8>, c: Claims) -> Seq<u8> {
    signing_input(c) + seq![46u8] + hs256_sig(key, signing_input(c))
}

/// The whole token, as text.
pub open spec fn token_chars(key: Seq<u8>, c: Claims) -> Seq<char> {
    ascii_chars(token_bytes(key, c))
}

/// The signing primitive keeps its output inside the base64url alphabet;
/// every signature the wrapper returns satisfies this.
pub open spec fn sig_clean(key: Seq<u8>, c: Claims) -> bool {
    all_b64url(hs256_sig(key, signing_input(c)))
}

/// The first index at or after `i` holding byte `t`, or the length.
pub open spec fn find_byte(s: Seq<u8>, t: u8, i: int) -> int
    decreases s.len() - i,
{
    if i < 0 || i >= s.len() {
        s.len() as int
    } else if s[i] == t {
        i
    } else {
        find_byte(s, t, i + 1)
    }
}

pub proof fn lemma_find_byte(s: Seq<u8>, t: u8, i: int, j: int)
    requires
        0 <= i <= j <= s.len(),
        forall|k: int| i <= k < j ==> s[k] != t,
        j == s.len() || s[j] == t,
    ensures
        find_byte(s, t, i) == j,
    decreases j - i,
{
    if i < j {
        lemma_find_byte(s, t, i + 1, j);
    }
}

/// The complete meaning of validation: what `validate` returns for any
/// token text, expected kind, key and time.
pub open spec fn validate_spec(k: TokenKind, key: Seq<u8>, t: Seq<char>, now: u64) -> Result<
    Claims,
    AuthError,
> {
    if !vstd::utf8::is_ascii_chars(t) {
        Err(AuthError::Authentication)
    } else {
        let b = ascii_bytes(t);
        let d1 = find_byte(b, 46, 0);
        let d2 = find_byte(b, 46, d1 + 1);
        if d1 == b.len() || d2 == b.len() {
            Err(AuthError::Authentication)
        } else if b.subrange(0, d1) != header_seg() {
            Err(AuthError::Authentication)
        } else if b.subrange(d2 + 1, b.len() as int) != hs256_sig(key, b.subrange(0, d2)) {
            Err(AuthError::Authentication)
        } else {
            match b64_decode(b.subrange(d1 + 1, d2)) {
                None => Err(AuthError::Authentication),
                Some(j) => match spec_parse_claims(j) {
                    None => Err(AuthError::Authentication),
                    Some(c) => if c.exp <= now {
                        Err(AuthError::Authentication)
                    } else if c.aud != kind_aud(k) {
                        Err(AuthError::Authentication)
                    } else if !amr_ok(k, c.amr) {
                        Err(AuthError::Mfa)
                    } else {
                        Ok(c)
                    },
                },
            }
        }
    }
}

/// The header JSON, as bytes.
fn header_json_vec() -> (r: Vec<u8>)
    ensures
        r@ =~= header_json(),
{
    let mut v: Vec<u8> = Vec::new();
    v.push(123);
    v.push(34);
    v.push(116);
    v.push(121);
    v.push(112);
    v.push(34);
    v.push(58);
    v.push(34);
    v.push(74);
    v.push(87);
    v.push(84);
    v.push(34);
    v.push(44);
    v.push(34);
    v.push(97);
    v.push(108);
    v.push(103);
    v.push(34);
    v.push(58);
    v.push(34);
    v.push(72);
    v.push(83);
    v.push(50);
    v.push(53);
    v.push(54);
    v.push(34);
    v.push(125);
    v
}

/// Mints the token of `kind` for subject `sub` at time `now`.
///
/// Signing itself cannot fail for this algorithm, so issuance is total on
/// the stated inputs.
pub fn issue(kind: TokenKind, sub: u128, now: u64, key: &[u8]) -> (t: String)
    requires
        key@.len() >= 32,
        now <= u64::MAX - 604800,
    ensures
        t@ == token_chars(key@, claims_for(kind, sub, now)),
        sig_clean(key@, claims_for(kind, sub, now)),
        vstd::utf8::is_ascii_chars(t@),
{
    let exp: u64 = match kind {
        TokenKind::StepUp => now + 300,
        TokenKind::Access => now + 86400,
        TokenKind::Refresh => now + 604800,
    };
    let aud = match kind {
        TokenKind::StepUp => Audience::MfaVerification,
        TokenKind::Access => Audience::Api,
        TokenKind::Refresh => Audience::Refresh,
    };
    let amr = match kind {
        TokenKind::StepUp => Amr::Pwd,
        TokenKind::Access => Amr::PwdMfa,
        TokenKind::Refresh => Amr::Absent,
    };
    let c = Claims { sub, exp, aud, amr };
    assert(c == claims_for(kind, sub, now));
    let j = build_claims_json(&c);
    let mut payload = b64_encode_exec(&j);
    let h = header_json_vec();
    let mut msg = b64_encode_exec(&h);
    msg.push(46);
    msg.append(&mut payload);
    assert(msg@ =~= signing_input(c));
    let mut sig = hs256_sign(key, &msg);
    let mut tb = msg;
    tb.push(46);
    tb.append(&mut sig);
    assert(tb@ =~= token_bytes(key@, c));
    proof {
        lemma_b64_alphabet(header_json());
        lemma_b64_alphabet(claims_json(c));
        assert forall|i: int| 0 <= i < tb@.len() implies tb@[i] < 128 by {
            let si = signing_input(c);
            if i < si.len() {
                if i < header_seg().len() {
                    assert(si[i] == header_seg()[i]);
                    assert(is_b64url_byte(header_seg()[i]));
                } else if i == header_seg().len() {
                    assert(si[i] == 46);
                } else {
                    assert(si[i] == b64_encode(claims_json(c))[i - header_seg().len() - 1]);
                    assert(is_b64url_byte(si[i]));
                }
                assert(tb@[i] == si[i]);
            } else if i == si.len() {
                assert(tb@[i] == 46);
            } else {
                assert(tb@[i] == hs256_sig(key@, si)[i - si.len() - 1]);
                assert(is_b64url_byte(tb@[i]));
            }
        }
        lemma_ascii_chars_bytes(tb@);
    }
    crate::ext::ascii_to_string(tb)
}

/// Checks a token of the expected `kind` at time `now`, returning its
/// claims exactly when every check passes; `validate_spec` states the
/// result completely.
pub fn validate(kind: TokenKind, token: &str, now: u64, key: &[u8]) -> (r: Result<
    Claims,
    AuthError,
>)
    requires
        key@.len() >= 32,
    ensures
        r == validate_spec(kind, key@, token@, now),
{
    if !token.is_ascii() {
        return Err(AuthError::Authentication);
    }
    let b = token.as_bytes_vec();
    proof {
        broadcast use vstd::string::is_ascii_spec_bytes;

        assert(b@ =~= ascii_bytes(token@));
    }
    let n = b.len();
    // First separator.
    let mut d1: usize = 0;
    while d1 < n && b[d1] != 46
        invariant
            0 <= d1 <= n,
            n == b@.len(),
            forall|k: int| 0 <= k < d1 ==> b@[k] != 46,
        decreases n - d1,
    {
        d1 = d1 + 1;
    }
    proof {
        lemma_find_byte(b@, 46, 0, d1 as int);
    }
    if d1 == n {
        return Err(AuthError::Authentication);
    }
    // Second separator.
    let mut d2: usize = d1 + 1;
    while d2 < n && b[d2] != 46
        invariant
            d1 + 1 <= d2 <= n,
            n == b@.len(),
            forall|k: int| d1 + 1 <= k < d2 ==> b@[k] != 46,
        decreases n - d2,
    {
        d2 = d2 + 1;
    }
    proof {
        lemma_find_byte(b@, 46, d1 + 1, d2 as int);
    }
    if d2 == n {
        return Err(AuthError::Authentication);
    }
    // Header segment.
    let h = header_json_vec();
    let hs = b64_encode_exec(&h);
    assert(hs@ =~= header_seg());
    if !(d1 == hs.len() && crate::claims::match_at(&b, 0, &hs)) {
        proof {
            if d1 == hs.len() {
                assert(b@.subrange(0, d1 as int) != header_seg());
            } else {
                assert(b@.subrange(0, d1 as int).len() != header_seg().len());
            }
        }
        return Err(AuthError::Authentication);
    }
    assert(b@.subrange(0, d1 as int) =~= header_seg());
    // Signature.
    let msg = vstd::slice::slice_to_vec(vstd::slice::slice_subrange(b.as_slice(), 0, d2));
    let sig = hs256_sign(key, &msg);
    if !(n - (d2 + 1) == sig.len() && crate::claims::match_at(&b, d2 + 1, &sig)) {
        proof {
            if n - (d2 + 1) == sig@.len() {
                assert(b@.subrange(d2 + 1, n as int) != hs256_sig(key@, b@.subrange(0, d2 as int)));
            } else {
                assert(b@.subrange(d2 + 1, n as int).len() != hs256_sig(
                    key@,
                    b@.subrange(0, d2 as int),
                ).len());
            }
        }
        return Err(AuthError::Authentication);
    }
    assert(b@.subrange(d2 + 1, n as int) =~= hs256_sig(key@, b@.subrange(0, d2 as int)));
    // Payload.
    let p = vstd::slice::slice_to_vec(vstd::slice::slice_subrange(b.as_slice(), d1 + 1, d2));
    let j = match b64_decode_exec(&p) {
        Some(j) => j,
        None => {
            return Err(AuthError::Authentication);
        },
    };
    let c = match parse_claims(&j) {
        Some(c) => c,
        None => {
            return Err(AuthError::Authentication);
        },
    };
    if c.exp <= now {
        return Err(AuthError::Authentication);
    }
    let expected_aud = match kind {
        TokenKind::StepUp => Audience::MfaVerification,
        TokenKind::Access => Audience::Api,
        TokenKind::Refresh => Audience::Refresh,
    };
    if !(c.aud == expected_aud) {
        return Err(AuthError::Authentication);
    }
    let gate_ok = match kind {
        TokenKind::StepUp => c.amr == Amr::Pwd,
        TokenKind::Access => c.amr == Amr::PwdMfa,
        TokenKind::Refresh => true,
    };
    if !gate_ok {
        return Err(AuthError::Mfa);
    }
    Ok(c)
}

/// Validation determined on every token this library mints: fresh tokens
/// of the matching kind yield their exact claims; expiry and audience
/// mismatches are authentication errors; a gating mismatch is an MFA
/// error.
pub proof fn lemma_validate_token_chars(kind: TokenKind, key: Seq<u8>, c: Claims, now: u64)
    requires
        sig_clean(key, c),
    ensures
        validate_spec(kind, key, token_chars(key, c), now) == (if c.exp <= now {
            Err::<Claims, AuthError>(AuthError::Authentication)
        } else if c.aud != kind_aud(kind) {
            Err::<Claims, AuthError>(AuthError::Authentication)
        } else if !amr_ok(kind, c.amr) {
            Err::<Claims, AuthError>(AuthError::Mfa)
        } else {
            Ok::<Claims, AuthError>(c)
        }),
{
    let si = signing_input(c);
    let sig = hs256_sig(key, si);
    let tb = token_bytes(key, c);
    let hl = header_seg().len() as int;
    let pl = b64_encode(claims_json(c)).len() as int;
    lemma_b64_alphabet(header_json());
    lemma_b64_alphabet(claims_json(c));
    assert(si.len() == hl + 1 + pl);
    assert forall|i: int| 0 <= i < tb.len() implies tb[i] < 128 by {
        if i < si.len() {
            assert(tb[i] == si[i]);
            if i < hl {
                assert(si[i] == header_seg()[i]);
            } else if i > hl {
                assert(si[i] == b64_encode(claims_json(c))[i - hl - 1]);
            }
        } else if i == si.len() {
        } else {
            assert(tb[i] == sig[i - si.len() - 1]);
        }
    }
    lemma_ascii_chars_bytes(tb);
    let t = token_chars(key, c);
    assert(vstd::utf8::is_ascii_chars(t));
    let b = ascii_bytes(t);
    assert(b =~= tb);
    // Separator positions.
    assert forall|k: int| 0 <= k < hl implies b[k] != 46 by {
        assert(b[k] == header_seg()[k]);
        assert(is_b64url_byte(header_seg()[k]));
    }
    assert(b[hl] == 46);
    lemma_find_byte(b, 46, 0, hl);
    assert forall|k: int| hl + 1 <= k < hl + 1 + pl implies b[k] != 46 by {
        assert(b[k] == b64_encode(claims_json(c))[k - hl - 1]);
        assert(is_b64url_byte(b[k]));
    }
    assert(b[hl + 1 + pl] == 46);
    lemma_find_byte(b, 46, hl + 1, hl + 1 + pl);
    let d1 = hl;
    let d2 = hl + 1 + pl;
    assert(d2 < b.len());
    assert(b.subrange(0, d1) =~= header_seg());
    assert(b.subrange(0, d2) =~= si);
    assert(b.subrange(d2 + 1, b.len() as int) =~= sig);
    assert(b.subrange(d1 + 1, d2) =~= b64_encode(claims_json(c)));
    lemma_b64_round_trip(claims_json(c));
    lemma_claims_round_trip(c);
}

/// Mints the five-minute step-up token proving password success only.
pub fn generate_mfa_token(user_id: u128, now: u64, key: &[u8]) -> (r: Result<String, AuthError>)
    requires
        key@.len() >= 32,
        now <= u64::MAX - 604800,
    ensures
        r matches Ok(t) && t@ == token_chars(key@, claims_for(TokenKind::StepUp, user_id, now)),
        sig_clean(key@, claims_for(TokenKind::StepUp, user_id, now)),
{
    Ok(issue(TokenKind::StepUp, user_id, now, key))
}

/// Mints the one-day access token carrying both proven factors.
pub fn generate_access_token(user_id: u128, now: u64, key: &[u8]) -> (r: Result<String, AuthError>)
    requires
        key@.len() >= 32,
        now <= u64::MAX - 604800,
    ensures
        r matches Ok(t) && t@ == token_chars(key@, claims_for(TokenKind::Access, user_id, now)),
        sig_clean(key@, claims_for(TokenKind::Access, user_id, now)),
{
    Ok(issue(TokenKind::Access, user_id, now, key))
}

/// Mints the seven-day refresh token, which carries no methods claim.
pub fn generate_refresh_token(user_id: u128, now: u64, key: &[u8]) -> (r: Result<String, AuthError>)
    requires
        key@.len() >= 32,
        now <= u64::MAX - 604800,
    ensures
        r matches Ok(t) && t@ == token_chars(key@, claims_for(TokenKind::Refresh, user_id, now)),
        sig_clean(key@, claims_for(TokenKind::Refresh, user_id, now)),
{
    Ok(issue(TokenKind::Refresh, user_id, now, key))
}

/// Accepts only a fresh step-up token: password proven, second factor not
/// yet proven.
pub fn validate_mfa_token(token: &str, now: u64, key: &[u8]) -> (r: Result<Claims, AuthError>)
    requires
        key@.len() >= 32,
    ensures
        r == validate_spec(TokenKind::StepUp, key@, token@, now),
{
    validate(TokenKind::StepUp, token, now, key)
}

/// Accepts only a fresh access token whose methods include the second
/// factor.
pub fn validate_access_token(token: &str, now: u64, key: &[u8]) -> (r: Result<Claims, AuthError>)
    requires
        key@.len() >= 32,
    ensures
        r == validate_spec(TokenKind::Access, key@, token@, now),
{
    validate(TokenKind::Access, token, now, key)
}

/// A fresh token is accepted exactly by its own kind, with its exact
/// subject, audience and methods; presented to any other kind's validator
/// it is rejected with an authentication error (audience mismatch).
pub proof fn lemma_cross_kind_rejected(
    mint: TokenKind,
    check: TokenKind,
    key: Seq<u8>,
    sub: u128,
    now: u64,
    now2: u64,
)
    requires
        sig_clean(key, claims_for(mint, sub, now)),
        now <= u64::MAX - 604800,
    ensures
        mint != check ==> validate_spec(check, key, token_chars(key, claims_for(mint, sub, now)),
            now2) == Err::<Claims, AuthError>(AuthError::Authentication),
        mint == check && now2 < now + kind_lifetime(mint) ==> validate_spec(
            check,
            key,
            token_chars(key, claims_for(mint, sub, now)),
            now2,
        ) == Ok::<Claims, AuthError>(claims_for(mint, sub, now)),
        now2 >= now + kind_lifetime(mint) ==> validate_spec(
            check,
            key,
            token_chars(key, claims_for(mint, sub, now)),
            now2,
        ) == Err::<Claims, AuthError>(AuthError::Authentication),
{
    lemma_validate_token_chars(check, key, claims_for(mint, sub, now), now2);
}

} // verus!
