use auth_backend::claims::{Amr, Audience};
use auth_backend::errors::AuthError;
use auth_backend::token::{
    generate_access_token, generate_mfa_token, generate_refresh_token, issue, validate,
    validate_access_token, validate_mfa_token, TokenKind,
};

const KEY: &[u8] = b"0123456789abcdef0123456789abcdef";
const NOW: u64 = 3_000_000_000;
const SUB: u128 = 0x0011_2233_4455_6677_8899_aabb_ccdd_eeff;

#[test]
fn issue_validate_round_trip_access() {
    let t = issue(TokenKind::Access, SUB, NOW, KEY);
    let c = validate(TokenKind::Access, &t, NOW + 100, KEY).unwrap();
    assert_eq!(c.sub, SUB);
    assert_eq!(c.exp, NOW + 86400);
    assert!(matches!(c.aud, Audience::Api));
    assert!(matches!(c.amr, Amr::PwdMfa));
}

#[test]
fn issue_validate_round_trip_step_up() {
    let t = generate_mfa_token(SUB, NOW, KEY).unwrap();
    let c = validate_mfa_token(&t, NOW + 10, KEY).unwrap();
    assert_eq!(c.sub, SUB);
    assert_eq!(c.exp, NOW + 300);
    assert!(matches!(c.aud, Audience::MfaVerification));
    assert!(matches!(c.amr, Amr::Pwd));
}

#[test]
fn issue_validate_round_trip_refresh() {
    let t = generate_refresh_token(SUB, NOW, KEY).unwrap();
    let c = validate(TokenKind::Refresh, &t, NOW + 604799, KEY).unwrap();
    assert_eq!(c.sub, SUB);
    assert_eq!(c.exp, NOW + 604800);
    assert!(matches!(c.amr, Amr::Absent));
}

#[test]
fn expired_tokens_are_rejected() {
    let t = generate_access_token(SUB, NOW, KEY).unwrap();
    assert_eq!(validate_access_token(&t, NOW + 86400, KEY), Err(AuthError::Authentication));
    let m = generate_mfa_token(SUB, NOW, KEY).unwrap();
    assert_eq!(validate_mfa_token(&m, NOW + 300, KEY), Err(AuthError::Authentication));
}

#[test]
fn step_up_token_is_not_an_access_token() {
    let m = generate_mfa_token(SUB, NOW, KEY).unwrap();
    assert_eq!(validate_access_token(&m, NOW + 10, KEY), Err(AuthError::Authentication));
    let a = generate_access_token(SUB, NOW, KEY).unwrap();
    assert_eq!(validate_mfa_token(&a, NOW + 10, KEY), Err(AuthError::Authentication));
    let r = generate_refresh_token(SUB, NOW, KEY).unwrap();
    assert_eq!(validate_access_token(&r, NOW + 10, KEY), Err(AuthError::Authentication));
    assert_eq!(validate(TokenKind::Refresh, &a, NOW + 10, KEY), Err(AuthError::Authentication));
}

#[test]
fn wrong_key_is_rejected() {
    let t = generate_access_token(SUB, NOW, KEY).unwrap();
    let other: &[u8] = b"another-secret-key-of-32-bytes!!";
    assert_eq!(validate_access_token(&t, NOW + 10, other), Err(AuthError::Authentication));
}

#[test]
fn garbage_tokens_are_rejected() {
    assert_eq!(validate_access_token("", NOW, KEY), Err(AuthError::Authentication));
    assert_eq!(validate_access_token("a.b", NOW, KEY), Err(AuthError::Authentication));
    assert_eq!(validate_access_token("a.b.c", NOW, KEY), Err(AuthError::Authentication));
    assert_eq!(validate_access_token("ü.x.y", NOW, KEY), Err(AuthError::Authentication));
    // A tampered payload fails the signature check.
    let t = generate_access_token(SUB, NOW, KEY).unwrap();
    let mut parts: Vec<&str> = t.split('.').collect();
    let other = issue(TokenKind::Access, SUB ^ 1, NOW, KEY);
    let other_parts: Vec<&str> = other.split('.').collect();
    parts[1] = other_parts[1];
    let forged = format!("{}.{}.{}", parts[0], parts[1], parts[2]);
    assert_eq!(validate_access_token(&forged, NOW, KEY), Err(AuthError::Authentication));
}

#[test]
fn tokens_decode_with_jsonwebtoken() {
    let t = generate_access_token(SUB, NOW, KEY).unwrap();
    let mut validation = jsonwebtoken::Validation::new(jsonwebtoken::Algorithm::HS256);
    validation.set_audience(&["urn:auth-center:api"]);
    validation.validate_exp = false;
    let decoded = jsonwebtoken::decode::<serde_json::Value>(
        &t,
        &jsonwebtoken::DecodingKey::from_secret(KEY),
        &validation,
    )
    .unwrap();
    assert_eq!(
        decoded.claims.get("sub").unwrap().as_str().unwrap(),
        "00112233-4455-6677-8899-aabbccddeeff"
    );
    assert_eq!(decoded.claims.get("exp").unwrap().as_u64().unwrap(), NOW + 86400);
    let amr: Vec<String> = decoded
        .claims
        .get("amr")
        .unwrap()
        .as_array()
        .unwrap()
        .iter()
        .map(|v| v.as_str().unwrap().to_string())
        .collect();
    assert_eq!(amr, vec!["pwd".to_string(), "mfa".to_string()]);
}
