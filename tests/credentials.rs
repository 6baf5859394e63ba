use snakesystem_api::credentials::{check_credentials, UserAccount};
use snakesystem_api::crypto::{decrypt_text, encrypt_text, generate_iv};
use snakesystem_api::engine::{AuthConfig, AuthService};
use snakesystem_api::error::AuthError;
use snakesystem_api::model::LoginRequest;

fn config() -> AuthConfig {
    AuthConfig {
        jwt_secret: b"secret".to_vec(),
        crypto_secret: b"0123456789abcdef0123456789abcdef".to_vec(),
        freshness_window_secs: 600,
    }
}

fn request(email: &str, password: &str) -> LoginRequest {
    LoginRequest { email: Some(email.to_string()), password: Some(password.to_string()) }
}

fn account(cfg: &AuthConfig, disabled: bool) -> UserAccount {
    UserAccount {
        user_id: 11,
        email: "x@y.com".to_string(),
        fullname: "X Y".to_string(),
        password_hash: encrypt_text("rightpass1", &cfg.crypto_secret),
        disabled_login: disabled,
        picture: Some("pic.png".to_string()),
        register_date: 1_600_000_000,
    }
}

#[test]
fn disabled_account_is_reported_even_with_wrong_password() {
    let cfg = config();
    let acc = account(&cfg, true);
    let r = AuthService::login(&cfg, &request("x@y.com", "wrongpass"), Some(&acc), "laptop", "10.0.0.1", "app");
    assert_eq!(r, Err(AuthError::AccountDisabled));
    let r = AuthService::login(&cfg, &request("x@y.com", "rightpass1"), Some(&acc), "laptop", "10.0.0.1", "app");
    assert_eq!(r, Err(AuthError::AccountDisabled));
}

#[test]
fn wrong_password_and_unknown_email_look_the_same() {
    let cfg = config();
    let acc = account(&cfg, false);
    let wrong = AuthService::login(&cfg, &request("x@y.com", "wrongpass"), Some(&acc), "d", "i", "a");
    let unknown = AuthService::login(&cfg, &request("nobody@y.com", "rightpass1"), None, "d", "i", "a");
    assert_eq!(wrong, Err(AuthError::InvalidCredentials));
    assert_eq!(unknown, Err(AuthError::InvalidCredentials));
    let other = AuthService::login(&cfg, &request("z@y.com", "rightpass1"), Some(&acc), "d", "i", "a");
    assert_eq!(other, Err(AuthError::InvalidCredentials));
}

#[test]
fn right_password_yields_login_claims() {
    let cfg = config();
    let acc = account(&cfg, false);
    let c = AuthService::login(&cfg, &request("x@y.com", "rightpass1"), Some(&acc), "laptop", "10.0.0.1", "app").unwrap();
    assert!(c.result);
    assert_eq!(c.usernid, 11);
    assert_eq!(c.email, "x@y.com");
    assert_eq!(c.fullname, "X Y");
    assert!(!c.disabled_login);
    assert_eq!(c.exp, 0);
    assert_eq!(c.picture, Some("pic.png".to_string()));
    assert_eq!(c.comp_name, Some("laptop".to_string()));
    assert_eq!(c.ip_address, Some("10.0.0.1".to_string()));
    assert_eq!(c.app_name, Some("app".to_string()));
}

#[test]
fn check_credentials_compares_digests() {
    let cfg = config();
    let acc = account(&cfg, false);
    let r = check_credentials(Some(&acc), "x@y.com", &acc.password_hash, "d", "i", "a");
    assert!(r.is_ok());
    let r = check_credentials(Some(&acc), "x@y.com", "rightpass1", "d", "i", "a");
    assert_eq!(r, Err(AuthError::InvalidCredentials));
}

#[test]
fn encryption_is_deterministic_and_reversible() {
    let key = config().crypto_secret;
    let a = encrypt_text("hello world", &key);
    let b = encrypt_text("hello world", &key);
    assert_eq!(a, b);
    assert_ne!(a, "hello world");
    assert_ne!(a, "aGVsbG8gd29ybGQ=");
    assert_ne!(a, encrypt_text("hello worle", &key));
    assert!(a.chars().all(|c| c.is_ascii_alphanumeric() || c == '-' || c == '_' || c == '='));
    assert_eq!(decrypt_text(&a, "hello world", &key), Some("hello world".to_string()));
    assert_eq!(encrypt_text("", &key), "");
}

#[test]
fn decrypt_rejects_bad_base64() {
    let key = config().crypto_secret;
    assert_eq!(decrypt_text("not base64!!", "x", &key), None);
}

#[test]
fn iv_is_prefix_of_sha256() {
    let iv = generate_iv("abc");
    assert_eq!(
        iv,
        vec![0xba, 0x78, 0x16, 0xbf, 0x8f, 0x01, 0xcf, 0xea, 0x41, 0x41, 0x40, 0xde, 0x5d, 0xae, 0x22, 0x23]
    );
}

#[test]
fn missing_fields_count_as_empty() {
    let cfg = config();
    let acc = account(&cfg, false);
    let req = LoginRequest { email: None, password: None };
    assert_eq!(AuthService::login(&cfg, &req, Some(&acc), "d", "i", "a"), Err(AuthError::InvalidCredentials));
}
