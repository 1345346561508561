//! The library's trusted boundary: every call into an outside crate (and the
//! one `String` conversion std offers no specification for) lives here, each
//! behind a small wrapper whose contract states what the callee's source
//! shows. Nothing else in the library is taken on trust.

use vstd::prelude::*;

use crate::b64::is_b64url_byte;
use crate::text::all_ascii;
use crate::text::is_dec_digit_char;

verus! {

/// The base64url (no padding) text of the HMAC-SHA256 tag that
/// `jsonwebtoken::crypto::sign` computes for `msg` under `key`.
pub uninterp spec fn hs256_sig(key: Seq<u8>, msg: Seq<u8>) -> Seq<u8>;

/// The six-digit one-time code for `secret` at step `step` (SHA-1, six
/// digits, 30-second steps).
pub uninterp spec fn totp_code(secret: Seq<u8>, step: u64) -> Seq<char>;

/// The RFC 4648 base32 text (no padding) of `b`.
pub uninterp spec fn base32_of(b: Seq<u8>) -> Seq<char>;

/// Whether `password` matches the bcrypt `hash` (the salt and cost are part
/// of the hash text, so this depends on the two arguments alone).
pub uninterp spec fn bcrypt_matches(password: Seq<char>, hash: Seq<char>) -> bool;

/// Whether a bcrypt hash text is well formed: the verifier's parsing of
/// prefix, cost, salt and tag succeeds. A function of the hash text alone.
pub uninterp spec fn bcrypt_wf(hash: Seq<char>) -> bool;

/// Relies on jsonwebtoken::crypto::sign: for HS256 it always succeeds and
/// returns the base64url text (43 bytes, no padding) of the HMAC-SHA256 tag.
#[verifier::external_body]
pub fn hs256_sign(key: &[u8], msg: &Vec<u8>) -> (r: Vec<u8>)
    ensures
        r@ == hs256_sig(key@, msg@),
        r@.len() == 43,
        forall|i: int| 0 <= i < r@.len() ==> is_b64url_byte(#[trigger] r@[i]),
{
    let s = jsonwebtoken::crypto::sign(
        msg.as_slice(),
        &jsonwebtoken::EncodingKey::from_secret(key),
        jsonwebtoken::Algorithm::HS256,
    ).unwrap();
    s.into_bytes()
}

/// Relies on totp_rs::TOTP::generate: the code is a function of the secret
/// and the 30-second step alone, and is printed as exactly six decimal
/// digits.
#[verifier::external_body]
pub fn totp_code_at(secret: &Vec<u8>, step: u64) -> (r: String)
    requires
        secret@.len() >= 16,
        step <= 0x0111_1111_1111_1111,
    ensures
        r@ == totp_code(secret@, step),
        r@.len() == 6,
        forall|i: int| 0 <= i < r@.len() ==> is_dec_digit_char(#[trigger] r@[i]),
{
    let t = totp_rs::TOTP::new(totp_rs::Algorithm::SHA1, 6, 1, 30, secret.clone()).unwrap();
    t.generate(step * 30)
}

/// Relies on base32::encode with the RFC 4648 alphabet, no padding.
#[verifier::external_body]
pub fn base32_encode(b: &Vec<u8>) -> (r: String)
    ensures
        r@ == base32_of(b@),
        vstd::utf8::is_ascii_chars(r@),
{
    base32::encode(base32::Alphabet::RFC4648 { padding: false }, b.as_slice())
}

/// Relies on rand::Rng::gen for 21 bytes from the thread-local
/// cryptographically secure generator; nothing is assumed of the values.
#[verifier::external_body]
pub fn random_secret() -> (r: Vec<u8>)
    ensures
        r@.len() == 21,
{
    let bytes: [u8; 21] = rand::random();
    bytes.to_vec()
}

/// Relies on bcrypt::hash: a fresh salted hash of `password`; its source
/// recomputes the same hash from the embedded salt on verification, so the
/// result matches `password` under `bcrypt_matches`, and the produced text
/// parses back (prefix, in-range cost, salt and tag), so it is well formed.
#[verifier::external_body]
pub fn bcrypt_hash(password: &str) -> (r: Option<String>)
    ensures
        r matches Some(h) ==> bcrypt_matches(password@, h@) && bcrypt_wf(h@),
{
    bcrypt::hash(password, bcrypt::DEFAULT_COST).ok()
}

/// Relies on bcrypt::verify: deterministic in the password and the hash
/// text, and it fails exactly when the hash text is malformed — every
/// error path in its source (prefix, cost, salt, tag) reads the hash text
/// only, never the password, which is null-terminated and truncated before
/// use.
#[verifier::external_body]
pub fn bcrypt_verify(password: &str, hash: &str) -> (r: Option<bool>)
    ensures
        r is Some <==> bcrypt_wf(hash@),
        r matches Some(b) ==> b == bcrypt_matches(password@, hash@),
{
    bcrypt::verify(password, hash).ok()
}

/// Relies on String::from_utf8: ASCII bytes decode to one character each.
#[verifier::external_body]
pub fn ascii_to_string(b: Vec<u8>) -> (r: String)
    requires
        all_ascii(b@),
    ensures
        r@ == crate::text::ascii_chars(b@),
        vstd::utf8::is_ascii_chars(r@),
{
    String::from_utf8(b).unwrap()
}

} // verus!
