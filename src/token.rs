//! Token codec: signed, time-bounded credentials carrying [`Claims`].
//!
//! A token is an HS256 JSON Web Token whose payload is the canonical claims
//! text of [`claims_text`]. Signing and signature checking are jsonwebtoken's;
//! the payload format and the expiry rule are this module's.
use vstd::prelude::*;
use crate::claims::{claims_from_text, claims_text, claims_to_text, stamped, Claims, ClaimsView, TOKEN_LIFETIME_SECS};
use crate::error::AuthError;

verus! {

#[verifier::external_type_specification]
#[verifier::external_body]
pub struct ExJwtError(jsonwebtoken::errors::Error);

/// The HS256 token that jsonwebtoken writes for the JSON object text
/// `payload` under `key`.
pub uninterp spec fn hs256_token(payload: Seq<char>, key: Seq<u8>) -> Seq<char>;

/// The payload text of `token` when its HS256 signature under `key` checks
/// and its payload is a JSON object; `None` otherwise.
pub uninterp spec fn hs256_payload(token: Seq<char>, key: Seq<u8>) -> Option<Seq<char>>;

/// Relies on serde_json's `RawValue::from_string` (the text must be one JSON
/// value; it is then written verbatim) and jsonwebtoken's `encode` with an
/// HS256 header: the token depends on the payload text and the key alone.
/// Canonical claims text is valid JSON, and HS256 signing with a secret key
/// does not fail, so such a payload is always signed.
#[verifier::external_body]
fn sign_hs256(payload: String, key: &[u8]) -> (r: Result<String, jsonwebtoken::errors::Error>)
    ensures
        r matches Ok(t) ==> t@ == hs256_token(payload@, key@),
        (exists|c: ClaimsView| claims_text(c) == payload@) ==> r is Ok,
{
    let raw = serde_json::value::RawValue::from_string(payload)?;
    jsonwebtoken::encode(
        &jsonwebtoken::Header::new(jsonwebtoken::Algorithm::HS256),
        &raw,
        &jsonwebtoken::EncodingKey::from_secret(key),
    )
}

/// Relies on jsonwebtoken's `decode` with HS256 only, its own expiry,
/// audience and required-claim checks switched off (so the result depends on
/// the token and key alone), reading the payload as a serde_json `RawValue`:
/// a token that `encode` wrote for canonical claims text under the same key
/// gives that text back verbatim.
#[verifier::external_body]
fn check_hs256(token: &str, key: &[u8]) -> (r: Result<String, jsonwebtoken::errors::Error>)
    ensures
        r matches Ok(p) ==> hs256_payload(token@, key@) == Some(p@),
        r is Err ==> hs256_payload(token@, key@) is None,
        r matches Ok(p) ==> forall|c: ClaimsView| #[trigger]
            hs256_token(claims_text(c), key@) == token@ ==> p@ == claims_text(c),
        r is Err ==> forall|c: ClaimsView| #[trigger] hs256_token(claims_text(c), key@) != token@,
{
    let mut validation = jsonwebtoken::Validation::new(jsonwebtoken::Algorithm::HS256);
    validation.validate_exp = false;
    validation.validate_aud = false;
    validation.required_spec_claims.clear();
    let key = jsonwebtoken::DecodingKey::from_secret(key);
    match jsonwebtoken::decode::<Box<serde_json::value::RawValue>>(token, &key, &validation) {
        Ok(data) => Ok(data.claims.get().to_string()),
        Err(e) => Err(e),
    }
}

/// What verifying `token` under `key` at time `now` yields: the claims whose
/// canonical text the well-signed payload is, when their expiry is after
/// `now`.
pub open spec fn token_outcome(token: Seq<char>, key: Seq<u8>, now: int) -> Result<ClaimsView, AuthError> {
    match hs256_payload(token, key) {
        None => Err(AuthError::InvalidSignature),
        Some(p) => if exists|c: ClaimsView| claims_text(c) == p {
            let c = choose|c: ClaimsView| claims_text(c) == p;
            if c.exp > now {
                Ok(c)
            } else {
                Err(AuthError::Expired)
            }
        } else {
            Err(AuthError::InvalidSignature)
        },
    }
}

/// Issues a token for `user` at time `now`, signed with `secret`. The
/// embedded claims are `user`'s with a fresh expiry. Issuing always succeeds:
/// the canonical claims text is valid JSON and HS256 signing cannot fail.
pub fn create_jwt(user: &Claims, secret: &[u8], now: i64) -> (r: Result<String, AuthError>)
    requires
        now <= i64::MAX - TOKEN_LIFETIME_SECS,
    ensures
        r matches Ok(t) && t@ == hs256_token(claims_text(stamped(user@, now as int)), secret@),
{
    let claims = Claims::new(user.clone_claims(), now);
    let text = claims_to_text(&claims);
    assert(claims_text(claims@) == text@);
    match sign_hs256(text, secret) {
        Ok(t) => Ok(t),
        Err(_) => Err(AuthError::SigningError),
    }
}

/// Verifies `token` against `secret` at time `now`: a bad signature or
/// unreadable claims give `InvalidSignature`; well-signed claims whose expiry
/// is not after `now` give `Expired`.
pub fn validate_jwt(token: &str, secret: &[u8], now: i64) -> (r: Result<Claims, AuthError>)
    ensures
        match r {
            Ok(c) => token_outcome(token@, secret@, now as int) == Ok::<ClaimsView, AuthError>(c@),
            Err(e) => token_outcome(token@, secret@, now as int) == Err::<ClaimsView, AuthError>(e),
        },
        forall|c: ClaimsView| #[trigger]
            hs256_token(claims_text(c), secret@) == token@ ==> if c.exp > now {
                r matches Ok(d) && d@ == c
            } else {
                r == Err::<Claims, AuthError>(AuthError::Expired)
            },
{
    let payload = match check_hs256(token, secret) {
        Ok(p) => p,
        Err(_) => return Err(AuthError::InvalidSignature),
    };
    match claims_from_text(payload.as_str()) {
        Some(c) => {
            proof {
                let ch = choose|d: ClaimsView| claims_text(d) == payload@;
                assert(claims_text(ch) == payload@);
            }
            if c.exp > now {
                Ok(c)
            } else {
                Err(AuthError::Expired)
            }
        },
        None => Err(AuthError::InvalidSignature),
    }
}

} // verus!
