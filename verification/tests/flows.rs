use auth_backend::errors::AuthError;
use auth_backend::ids::parse_user_id;
use auth_backend::models::{
    DisableOTPSchema, GenerateOTPSchema, LoginOutcome, LoginRequest, RegisterRequest,
    VerifyOTPSchema,
};
use auth_backend::auth::{login, register, step_up, verify_credentials};
use auth_backend::otp::{disable_otp, generate_otp, validate_otp, verify_otp};
use auth_backend::store::UserStore;
use auth_backend::token::validate_access_token;

const KEY: &[u8] = b"0123456789abcdef0123456789abcdef";
const NOW: u64 = 3_000_000_000;

fn register_user(store: &mut UserStore, name: &str, email: &str, pw: &str) -> String {
    let d = register(
        store,
        &RegisterRequest {
            username: name.to_string(),
            email: email.to_string(),
            password: pw.to_string(),
        },
    )
    .unwrap_or_else(|e| panic!("register failed: {:?}", e));
    d.id
}

fn code_for(secret_b32: &str, time: u64) -> String {
    let totp = totp_rs::TOTP::new(
        totp_rs::Algorithm::SHA1,
        6,
        1,
        30,
        totp_rs::Secret::Encoded(secret_b32.to_string()).to_bytes().unwrap(),
    )
    .unwrap();
    totp.generate(time)
}

#[test]
fn credentials_verify_against_bcrypt() {
    let hash = bcrypt::hash("hunter2", 4).unwrap();
    assert_eq!(verify_credentials("hunter2", &hash), Ok(true));
    assert_eq!(verify_credentials("hunter3", &hash), Ok(false));
    assert_eq!(verify_credentials("hunter2", "not a bcrypt hash"), Err(AuthError::Internal));
}

#[test]
fn login_without_otp_returns_token_pair() {
    // User u1: no second factor; a correct password yields the pair and
    // the access token validates.
    let mut store = UserStore::new();
    register_user(&mut store, "u1", "u1@example.com", "pw-one");
    let r = login(
        &store,
        &LoginRequest { email: "u1@example.com".to_string(), password: "pw-one".to_string() },
        NOW,
        KEY,
    )
    .unwrap_or_else(|e| panic!("login failed: {:?}", e));
    match r {
        LoginOutcome::LoggedIn(d) => {
            let c = validate_access_token(&d.access_token, NOW + 5, KEY).unwrap();
            assert_eq!(c.exp, NOW + 86400);
            assert_eq!(d.user.email, "u1@example.com");
            assert!(!d.refresh_token.is_empty());
        },
        LoginOutcome::MfaRequired(_) => panic!("expected a full login"),
    }
}

#[test]
fn login_by_username_works_too() {
    let mut store = UserStore::new();
    register_user(&mut store, "u1", "u1@example.com", "pw-one");
    let r = login(
        &store,
        &LoginRequest { email: "u1".to_string(), password: "pw-one".to_string() },
        NOW,
        KEY,
    );
    assert!(matches!(r, Ok(LoginOutcome::LoggedIn(_))));
}

#[test]
fn login_masks_missing_user_and_wrong_password() {
    let mut store = UserStore::new();
    register_user(&mut store, "u1", "u1@example.com", "pw-one");
    let missing = login(
        &store,
        &LoginRequest { email: "nobody@example.com".to_string(), password: "x".to_string() },
        NOW,
        KEY,
    );
    let wrong = login(
        &store,
        &LoginRequest { email: "u1@example.com".to_string(), password: "bad".to_string() },
        NOW,
        KEY,
    );
    assert!(matches!(missing, Err(AuthError::Authentication)));
    assert!(matches!(wrong, Err(AuthError::Authentication)));
}

#[test]
fn register_rejects_taken_identity() {
    let mut store = UserStore::new();
    register_user(&mut store, "u1", "u1@example.com", "pw-one");
    let again = register(
        &mut store,
        &RegisterRequest {
            username: "u1".to_string(),
            email: "other@example.com".to_string(),
            password: "x".to_string(),
        },
    );
    assert!(matches!(again, Err(AuthError::Validation)));
}

#[test]
fn otp_lifecycle_with_step_up() {
    // User u2: enroll the factor, then log in and step up.
    let mut store = UserStore::new();
    let id_text = register_user(&mut store, "u2", "u2@example.com", "pw-two");
    let gen = generate_otp(
        &mut store,
        &GenerateOTPSchema { email: "u2@example.com".to_string(), user_id: id_text.clone() },
    )
    .unwrap_or_else(|e| panic!("generate failed: {:?}", e));
    assert!(gen.otp_auth_url.starts_with("otpauth://totp/AuthApp:u2@example.com?secret="));
    assert!(gen.otp_auth_url.contains(&gen.otp_base32));

    // Confirm with a code for the current step (exercises the stored
    // secret's round trip through base32).
    let code = code_for(&gen.otp_base32, NOW);
    verify_otp(
        &mut store,
        &VerifyOTPSchema { user_id: id_text.clone(), token: code },
        NOW,
    )
    .unwrap_or_else(|e| panic!("confirm failed: {:?}", e));

    // Login now withholds the pair: only a step-up token comes back.
    let r = login(
        &store,
        &LoginRequest { email: "u2@example.com".to_string(), password: "pw-two".to_string() },
        NOW,
        KEY,
    )
    .unwrap();
    let mfa_token = match r {
        LoginOutcome::MfaRequired(d) => d.mfa_token,
        LoginOutcome::LoggedIn(_) => panic!("token pair must be withheld when OTP is on"),
    };

    // A wrong code at step-up fails with an MFA error and no tokens.
    let wrong = step_up(&store, &mfa_token, "000000", NOW + 60, KEY);
    let right_code = code_for(&gen.otp_base32, NOW + 60);
    let wrong2 = if right_code == "000000" { Err(AuthError::Mfa) } else { wrong };
    assert!(matches!(wrong2, Err(AuthError::Mfa)));

    // The step-up token is still usable within its window: retry with the
    // right code and receive the pair.
    let d = step_up(&store, &mfa_token, &right_code, NOW + 60, KEY)
        .unwrap_or_else(|e| panic!("step-up failed: {:?}", e));
    let c = validate_access_token(&d.access_token, NOW + 61, KEY).unwrap();
    assert_eq!(c.exp, NOW + 60 + 86400);

    // An expired step-up token is rejected.
    let late = step_up(&store, &mfa_token, &right_code, NOW + 301, KEY);
    assert!(matches!(late, Err(AuthError::Authentication)));
}

#[test]
fn codes_of_adjacent_steps_are_accepted() {
    let mut store = UserStore::new();
    let id_text = register_user(&mut store, "u3", "u3@example.com", "pw");
    let gen = generate_otp(
        &mut store,
        &GenerateOTPSchema { email: "u3@example.com".to_string(), user_id: id_text.clone() },
    )
    .unwrap();
    let ok_now = code_for(&gen.otp_base32, NOW);
    verify_otp(&mut store, &VerifyOTPSchema { user_id: id_text.clone(), token: ok_now }, NOW)
        .unwrap();

    for dt in [-30i64, 0, 30] {
        let t = (NOW as i64 + dt) as u64;
        let code = code_for(&gen.otp_base32, t);
        let r = validate_otp(
            &store,
            &VerifyOTPSchema { user_id: id_text.clone(), token: code },
            NOW,
        );
        assert!(r.is_ok(), "code at offset {} should be accepted", dt);
    }
    for dt in [-60i64, 60] {
        let t = (NOW as i64 + dt) as u64;
        let code = code_for(&gen.otp_base32, t);
        let near: Vec<String> =
            vec![code_for(&gen.otp_base32, NOW - 30), code_for(&gen.otp_base32, NOW), code_for(
                &gen.otp_base32,
                NOW + 30,
            )];
        if near.contains(&code) {
            // A numeric collision between distant steps; the check cannot
            // tell such codes apart by design.
            continue;
        }
        let r = validate_otp(
            &store,
            &VerifyOTPSchema { user_id: id_text.clone(), token: code },
            NOW,
        );
        assert_eq!(r, Err(AuthError::Mfa), "code at offset {} should be rejected", dt);
    }
}

#[test]
fn disable_then_reprovision_invalidates_old_codes() {
    let mut store = UserStore::new();
    let id_text = register_user(&mut store, "u4", "u4@example.com", "pw");
    let first = generate_otp(
        &mut store,
        &GenerateOTPSchema { email: "u4@example.com".to_string(), user_id: id_text.clone() },
    )
    .unwrap();
    let first_code = code_for(&first.otp_base32, NOW);
    verify_otp(
        &mut store,
        &VerifyOTPSchema { user_id: id_text.clone(), token: first_code.clone() },
        NOW,
    )
    .unwrap();

    // Disable: idempotent, also on a second call.
    disable_otp(&mut store, &DisableOTPSchema { user_id: id_text.clone() }).unwrap();
    disable_otp(&mut store, &DisableOTPSchema { user_id: id_text.clone() }).unwrap();

    // With the factor off, a check is a validation error.
    let off = validate_otp(
        &store,
        &VerifyOTPSchema { user_id: id_text.clone(), token: first_code.clone() },
        NOW,
    );
    assert_eq!(off, Err(AuthError::Validation));

    // Provision anew: the old secret's code no longer confirms, a fresh
    // one does, and the user is enabled and verified again.
    let second = generate_otp(
        &mut store,
        &GenerateOTPSchema { email: "u4@example.com".to_string(), user_id: id_text.clone() },
    )
    .unwrap();
    assert_ne!(first.otp_base32, second.otp_base32);
    let fresh_code = code_for(&second.otp_base32, NOW);
    if first_code != fresh_code {
        let stale = verify_otp(
            &mut store,
            &VerifyOTPSchema { user_id: id_text.clone(), token: first_code.clone() },
            NOW,
        );
        assert_eq!(stale, Err(AuthError::Mfa));
    }
    verify_otp(&mut store, &VerifyOTPSchema { user_id: id_text.clone(), token: fresh_code }, NOW)
        .unwrap();
}

#[test]
fn otp_requests_reject_bad_ids() {
    let mut store = UserStore::new();
    let r = generate_otp(
        &mut store,
        &GenerateOTPSchema { email: "x@example.com".to_string(), user_id: "nope".to_string() },
    );
    assert!(matches!(r, Err(AuthError::Validation)));
    let missing = auth_backend::ids::format_user_id(12345);
    let r2 = generate_otp(
        &mut store,
        &GenerateOTPSchema { email: "x@example.com".to_string(), user_id: missing.clone() },
    );
    assert!(matches!(r2, Err(AuthError::NotFound)));
    let r3 = disable_otp(&mut store, &DisableOTPSchema { user_id: missing });
    assert!(matches!(r3, Err(AuthError::NotFound)));
}

#[test]
fn registered_id_is_canonical_text() {
    let mut store = UserStore::new();
    let id_text = register_user(&mut store, "u5", "u5@example.com", "pw");
    let n = parse_user_id(&id_text).unwrap();
    assert_eq!(auth_backend::ids::format_user_id(n), id_text);
}
