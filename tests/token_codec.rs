use snakesystem_api::claims::{claims_from_text, claims_to_text, Claims, TOKEN_LIFETIME_SECS};
use snakesystem_api::error::AuthError;
use snakesystem_api::time::utc_date_text;
use snakesystem_api::token::{create_jwt, validate_jwt};

const SECRET: &[u8] = b"a-test-signing-secret";
const NOW: i64 = 1_700_000_000;

fn sample_claims() -> Claims {
    Claims {
        result: true,
        usernid: 42,
        email: "x@y.com".to_string(),
        fullname: "Ada \"Quote\" Back\\slash\nLine".to_string(),
        disabled_login: false,
        expired_token: 0,
        expired_date: String::new(),
        register_date: 1_600_000_000,
        exp: 0,
        picture: None,
        comp_name: Some("laptop".to_string()),
        ip_address: Some("10.0.0.1".to_string()),
        app_name: Some("snakesystem-api".to_string()),
    }
}

#[test]
fn issued_token_verifies_to_the_same_claims() {
    let c = sample_claims();
    let token = create_jwt(&c, SECRET, NOW).unwrap();
    let back = validate_jwt(&token, SECRET, NOW + 10).unwrap();
    let expected = Claims::new(c.clone(), NOW);
    assert_eq!(back, expected);
    assert_eq!(back.email, c.email);
    assert_eq!(back.fullname, c.fullname);
    assert_eq!(back.usernid, c.usernid);
    assert_eq!(back.result, c.result);
    assert_eq!(back.picture, c.picture);
    assert_eq!(back.comp_name, c.comp_name);
    assert_eq!(back.exp, NOW + TOKEN_LIFETIME_SECS);
}

#[test]
fn round_trip_keeps_a_false_result_flag_and_negative_numbers() {
    let mut c = sample_claims();
    c.result = false;
    c.usernid = -7;
    c.register_date = -86_400;
    c.picture = Some("p\u{1}ic\u{1f}".to_string());
    let token = create_jwt(&c, SECRET, NOW).unwrap();
    let back = validate_jwt(&token, SECRET, NOW).unwrap();
    assert_eq!(back, Claims::new(c, NOW));
}

#[test]
fn stamped_claims_carry_expiry_fields() {
    let stamped = Claims::new(sample_claims(), 1_431_648_000 - TOKEN_LIFETIME_SECS);
    assert_eq!(stamped.expired_token, 1_431_648_000);
    assert_eq!(stamped.exp, 1_431_648_000);
    assert_eq!(stamped.expired_date, "2015-05-15 00:00:00");
}

#[test]
fn utc_date_text_formats_calendar_time() {
    assert_eq!(utc_date_text(0), "1970-01-01 00:00:00");
    assert_eq!(utc_date_text(1_431_648_000 + 3_661), "2015-05-15 01:01:01");
}

#[test]
fn token_is_not_the_bare_payload() {
    let c = sample_claims();
    let token = create_jwt(&c, SECRET, NOW).unwrap();
    assert_eq!(token.matches('.').count(), 2);
    assert!(!token.contains("x@y.com"));
}

#[test]
fn flipped_byte_fails_with_invalid_signature() {
    let token = create_jwt(&sample_claims(), SECRET, NOW).unwrap();
    let bytes = token.as_bytes();
    for i in [0usize, bytes.len() / 2, bytes.len() - 1] {
        let mut flipped = bytes.to_vec();
        flipped[i] = if flipped[i] == b'A' { b'B' } else { b'A' };
        let flipped = String::from_utf8(flipped).unwrap();
        assert_eq!(validate_jwt(&flipped, SECRET, NOW), Err(AuthError::InvalidSignature));
    }
}

#[test]
fn wrong_secret_fails_with_invalid_signature() {
    let token = create_jwt(&sample_claims(), SECRET, NOW).unwrap();
    assert_eq!(validate_jwt(&token, b"another-secret", NOW), Err(AuthError::InvalidSignature));
}

#[test]
fn past_expiry_fails_with_expired() {
    let token = create_jwt(&sample_claims(), SECRET, NOW).unwrap();
    let expiry = NOW + TOKEN_LIFETIME_SECS;
    assert!(validate_jwt(&token, SECRET, expiry - 1).is_ok());
    assert_eq!(validate_jwt(&token, SECRET, expiry), Err(AuthError::Expired));
    assert_eq!(validate_jwt(&token, SECRET, expiry + 1_000_000), Err(AuthError::Expired));
}

#[test]
fn garbage_token_fails_with_invalid_signature() {
    for garbage in ["", "garbage", "a.b.c", "...", "eyJhbGciOiJIUzI1NiJ9.e30.xyz", "ü.ö.ä"] {
        assert_eq!(validate_jwt(garbage, SECRET, NOW), Err(AuthError::InvalidSignature));
    }
}

#[test]
fn claims_text_round_trips() {
    let c = sample_claims();
    let text = claims_to_text(&c);
    assert!(text.starts_with("{\"result\":true,\"usernid\":42,\"email\":\"x@y.com\""));
    assert!(text.contains("\\\"Quote\\\" Back\\\\slash\\u000aLine"));
    assert!(text.ends_with("\"app_name\":\"snakesystem-api\"}"));
    assert_eq!(claims_from_text(&text), Some(c));
}

#[test]
fn claims_text_rejects_other_text() {
    let text = claims_to_text(&sample_claims());
    assert_eq!(claims_from_text(&text[..text.len() - 1]), None);
    assert_eq!(claims_from_text(&format!("{} ", text)), None);
    assert_eq!(claims_from_text(&text.replace("\"usernid\":42", "\"usernid\":042")), None);
    assert_eq!(claims_from_text(&text.replace("\"usernid\":42", "\"usernid\":99999999999")), None);
    assert_eq!(claims_from_text("{}"), None);
}

#[test]
fn issuing_is_deterministic() {
    let c = sample_claims();
    assert_eq!(create_jwt(&c, SECRET, NOW), create_jwt(&c, SECRET, NOW));
    assert_ne!(create_jwt(&c, SECRET, NOW), create_jwt(&c, SECRET, NOW + 1));
}
