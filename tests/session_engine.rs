use snakesystem_api::claims::Claims;
use snakesystem_api::engine::{plan, AuthConfig, AuthService, Intent, Outcome, StoreAction};
use snakesystem_api::error::AuthError;
use snakesystem_api::session::{SessionRecord, SessionStore};
use snakesystem_api::token::create_jwt;

const NOW: i64 = 1_700_000_000;
const WINDOW: i64 = 1_800;

fn config() -> AuthConfig {
    AuthConfig {
        jwt_secret: b"session-test-secret".to_vec(),
        crypto_secret: vec![7u8; 32],
        freshness_window_secs: WINDOW,
    }
}

fn claims_from(device: &str, ip: &str) -> Claims {
    Claims {
        result: true,
        usernid: 7,
        email: "a@example.com".to_string(),
        fullname: "Account A".to_string(),
        disabled_login: false,
        expired_token: 0,
        expired_date: String::new(),
        register_date: 1_600_000_000,
        exp: 0,
        picture: None,
        comp_name: Some(device.to_string()),
        ip_address: Some(ip.to_string()),
        app_name: Some("snakesystem-api".to_string()),
    }
}

fn login(
    store: &mut SessionStore,
    cfg: &AuthConfig,
    c: &Claims,
    token: &str,
    now: i64,
) -> Result<Outcome, AuthError> {
    AuthService::check_session(store, cfg, c, token, "", Intent::LoginCreate, false, now)
}

#[test]
fn second_login_while_fresh_requires_confirmation() {
    let cfg = config();
    let mut store = SessionStore::new();
    let first = claims_from("laptop", "10.0.0.1");
    let tok1 = create_jwt(&first, &cfg.jwt_secret, NOW).unwrap();
    assert_eq!(login(&mut store, &cfg, &first, &tok1, NOW), Ok(Outcome::Authenticated(first.clone())));
    let second = claims_from("phone", "10.0.0.2");
    let tok2 = create_jwt(&second, &cfg.jwt_secret, NOW + 1).unwrap();
    match login(&mut store, &cfg, &second, &tok2, NOW) {
        Ok(Outcome::ConfirmationRequired(conflict)) => {
            assert_eq!(conflict.device, "laptop");
            assert_eq!(conflict.ip_address, "10.0.0.1");
            assert_eq!(conflict.last_activity, NOW);
            assert!(conflict.message.contains("laptop"));
            assert!(conflict.message.contains("10.0.0.1"));
            assert!(conflict.message.contains("2023-11-14 22:13:20"));
            assert_eq!(conflict.existing, Some(Claims::new(first.clone(), NOW)));
        },
        other => panic!("expected a confirmation, got {:?}", other),
    }
    assert_eq!(store.find(7).unwrap().token, tok1);
}

#[test]
fn second_login_after_window_takes_over() {
    let cfg = config();
    let mut store = SessionStore::new();
    let first = claims_from("laptop", "10.0.0.1");
    assert!(matches!(login(&mut store, &cfg, &first, "tok1", NOW), Ok(Outcome::Authenticated(_))));
    let second = claims_from("phone", "10.0.0.2");
    let later = NOW + WINDOW + 1;
    assert_eq!(login(&mut store, &cfg, &second, "tok2", later), Ok(Outcome::Authenticated(second.clone())));
    let rec = store.find(7).unwrap();
    assert_eq!(rec.token, "tok2");
    assert_eq!(rec.device, "phone");
    assert_eq!(rec.last_activity, later);
}

#[test]
fn freshness_tie_protects_existing_session() {
    let cfg = config();
    let mut store = SessionStore::new();
    let first = claims_from("laptop", "10.0.0.1");
    login(&mut store, &cfg, &first, "tok1", NOW).unwrap();
    let second = claims_from("phone", "10.0.0.2");
    let r = login(&mut store, &cfg, &second, "tok2", NOW + WINDOW);
    assert!(matches!(r, Ok(Outcome::ConfirmationRequired(_))));
    assert_eq!(store.find(7).unwrap().token, "tok1");
}

#[test]
fn override_replaces_fresh_session() {
    let cfg = config();
    let mut store = SessionStore::new();
    let first = claims_from("laptop", "10.0.0.1");
    login(&mut store, &cfg, &first, "tok1", NOW).unwrap();
    let second = claims_from("phone", "10.0.0.2");
    let r = AuthService::check_session(&mut store, &cfg, &second, "tok2", "", Intent::LoginCreate, true, NOW);
    assert_eq!(r, Ok(Outcome::Authenticated(second)));
    assert_eq!(store.find(7).unwrap().token, "tok2");
}

#[test]
fn concurrent_logins_do_not_both_win() {
    let cfg = config();
    let mut store = SessionStore::new();
    let a = claims_from("laptop", "10.0.0.1");
    let b = claims_from("tablet", "10.0.0.3");
    let ra = login(&mut store, &cfg, &a, "tok-a", NOW);
    let rb = login(&mut store, &cfg, &b, "tok-b", NOW + 5);
    assert!(matches!(ra, Ok(Outcome::Authenticated(_))));
    assert!(matches!(rb, Ok(Outcome::ConfirmationRequired(_))));
    assert_eq!(store.find(7).unwrap().token, "tok-a");
}

#[test]
fn logout_twice_without_session_is_logged_out_both_times() {
    let cfg = config();
    let mut store = SessionStore::new();
    let c = claims_from("laptop", "10.0.0.1");
    for _ in 0..2 {
        let r = AuthService::check_session(&mut store, &cfg, &c, "tok", "tok", Intent::Logout, false, NOW);
        assert_eq!(r, Ok(Outcome::LoggedOut));
        assert!(store.find(7).is_none());
    }
}

#[test]
fn logout_removes_existing_session() {
    let cfg = config();
    let mut store = SessionStore::new();
    let c = claims_from("laptop", "10.0.0.1");
    login(&mut store, &cfg, &c, "tok1", NOW).unwrap();
    let r = AuthService::check_session(&mut store, &cfg, &c, "other", "", Intent::Logout, false, NOW);
    assert_eq!(r, Ok(Outcome::LoggedOut));
    assert!(store.find(7).is_none());
}

#[test]
fn check_existing_refreshes_matching_session() {
    let cfg = config();
    let mut store = SessionStore::new();
    let c = claims_from("laptop", "10.0.0.1");
    login(&mut store, &cfg, &c, "tok1", NOW).unwrap();
    let r = AuthService::check_session(&mut store, &cfg, &c, "tok1", "tok1", Intent::CheckExisting, false, NOW + 60);
    assert_eq!(r, Ok(Outcome::Authenticated(c)));
    let rec = store.find(7).unwrap();
    assert_eq!(rec.token, "tok1");
    assert_eq!(rec.last_activity, NOW + 60);
}

#[test]
fn check_existing_without_record_is_session_expired() {
    let cfg = config();
    let mut store = SessionStore::new();
    let c = claims_from("laptop", "10.0.0.1");
    let r = AuthService::check_session(&mut store, &cfg, &c, "tok1", "tok1", Intent::CheckExisting, false, NOW);
    assert_eq!(r, Err(AuthError::SessionExpired));
    login(&mut store, &cfg, &c, "tok1", NOW).unwrap();
    let r = AuthService::check_session(&mut store, &cfg, &c, "tok9", "tok9", Intent::CheckExisting, false, NOW);
    assert_eq!(r, Err(AuthError::SessionExpired));
    assert_eq!(store.find(7).unwrap().last_activity, NOW);
}

#[test]
fn login_with_empty_token_is_refused() {
    let cfg = config();
    let mut store = SessionStore::new();
    let c = claims_from("laptop", "10.0.0.1");
    assert_eq!(login(&mut store, &cfg, &c, "", NOW), Err(AuthError::InvalidSignature));
    assert!(store.find(7).is_none());
}

#[test]
fn record_with_empty_token_counts_as_no_session() {
    let cfg = config();
    let mut store = SessionStore::new();
    store.upsert(SessionRecord {
        account_id: 7,
        token: String::new(),
        last_activity: NOW,
        device: "old".to_string(),
        ip_address: "10.0.0.9".to_string(),
        app_name: String::new(),
    });
    let c = claims_from("laptop", "10.0.0.1");
    assert_eq!(login(&mut store, &cfg, &c, "tok1", NOW), Ok(Outcome::Authenticated(c)));
    assert_eq!(store.find(7).unwrap().token, "tok1");
}

#[test]
fn cookie_token_takes_precedence() {
    let cfg = config();
    let mut store = SessionStore::new();
    let c = claims_from("laptop", "10.0.0.1");
    let r = AuthService::check_session(&mut store, &cfg, &c, "presented", "cookie", Intent::LoginCreate, false, NOW);
    assert!(r.is_ok());
    assert_eq!(store.find(7).unwrap().token, "cookie");
}

#[test]
fn plan_names_the_write_without_touching_a_store() {
    let cfg = config();
    let c = claims_from("laptop", "10.0.0.1");
    let (out, action) = plan(None, &cfg, &c, "tok1", "", Intent::LoginCreate, false, NOW);
    assert_eq!(out, Ok(Outcome::Authenticated(c.clone())));
    assert_eq!(
        action,
        StoreAction::Upsert(SessionRecord {
            account_id: 7,
            token: "tok1".to_string(),
            last_activity: NOW,
            device: "laptop".to_string(),
            ip_address: "10.0.0.1".to_string(),
            app_name: "snakesystem-api".to_string(),
        })
    );
    let (out, action) = plan(None, &cfg, &c, "tok1", "", Intent::Logout, false, NOW);
    assert_eq!(out, Ok(Outcome::LoggedOut));
    assert_eq!(action, StoreAction::Delete(7));
}

#[test]
fn store_touch_and_delete() {
    let mut store = SessionStore::new();
    store.touch(3, NOW);
    assert!(store.find(3).is_none());
    store.upsert(SessionRecord {
        account_id: 3,
        token: "t".to_string(),
        last_activity: 1,
        device: String::new(),
        ip_address: String::new(),
        app_name: String::new(),
    });
    store.touch(3, NOW);
    assert_eq!(store.find(3).unwrap().last_activity, NOW);
    store.delete(3);
    store.delete(3);
    assert!(store.find(3).is_none());
}

#[test]
fn tie_is_fresh_even_with_negative_window() {
    let cfg = AuthConfig { freshness_window_secs: -5, ..config() };
    let mut store = SessionStore::new();
    let first = claims_from("laptop", "10.0.0.1");
    login(&mut store, &cfg, &first, "tok1", NOW).unwrap();
    let second = claims_from("phone", "10.0.0.2");
    assert!(matches!(login(&mut store, &cfg, &second, "tok2", NOW), Ok(Outcome::ConfirmationRequired(_))));
    assert_eq!(store.find(7).unwrap().token, "tok1");
    assert!(matches!(login(&mut store, &cfg, &second, "tok2", NOW + 1), Ok(Outcome::Authenticated(_))));
    assert_eq!(store.find(7).unwrap().token, "tok2");
}
