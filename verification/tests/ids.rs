use auth_backend::errors::AuthError;
use auth_backend::ids::{format_user_id, parse_user_id};

#[test]
fn format_matches_uuid_crate() {
    let n: u128 = 0x0123_4567_89ab_cdef_0123_4567_89ab_cdef;
    let ours = format_user_id(n);
    let theirs = uuid::Uuid::from_u128(n).to_string();
    assert_eq!(ours, theirs);
}

#[test]
fn format_zero() {
    assert_eq!(format_user_id(0), "00000000-0000-0000-0000-000000000000");
}

#[test]
fn format_max() {
    assert_eq!(format_user_id(u128::MAX), "ffffffff-ffff-ffff-ffff-ffffffffffff");
}

#[test]
fn parse_round_trip() {
    let n: u128 = 0xdead_beef_0000_1111_2222_3333_4444_5555;
    let s = format_user_id(n);
    assert_eq!(parse_user_id(&s), Ok(n));
}

#[test]
fn parse_small_value() {
    assert_eq!(parse_user_id("00000000-0000-0000-0000-00000000002a"), Ok(42));
}

#[test]
fn parse_rejects_bad_texts() {
    assert_eq!(parse_user_id(""), Err(AuthError::Validation));
    assert_eq!(parse_user_id("not-a-uuid"), Err(AuthError::Validation));
    // Right shape, wrong separator position.
    assert_eq!(
        parse_user_id("000000000-000-0000-0000-000000000000"),
        Err(AuthError::Validation)
    );
    // A non-hex character.
    assert_eq!(
        parse_user_id("g0000000-0000-0000-0000-000000000000"),
        Err(AuthError::Validation)
    );
    // Uppercase digits are not canonical here.
    assert_eq!(
        parse_user_id("00000000-0000-0000-0000-00000000002A"),
        Err(AuthError::Validation)
    );
    // Non-ASCII input.
    assert_eq!(parse_user_id("ü0000000-0000-0000-0000-000000000000"), Err(AuthError::Validation));
}
