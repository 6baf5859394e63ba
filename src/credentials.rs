//! The credential verifier: checks an e-mail and password against the stored
//! account found by the user-store collaborator.
use vstd::prelude::*;
use crate::claims::{Claims, ClaimsView};
use crate::crypto::{ciphertext_of, encrypt_text};
use crate::engine::{or_empty, text_or_empty, AuthConfig, AuthService};
use crate::model::LoginRequest;
use crate::error::AuthError;
use crate::text::{opt_view, same_text};

verus! {

/// A stored account, as the user store returns it for an e-mail.
#[derive(Debug, Clone, PartialEq, Eq)]
pub struct UserAccount {
    pub user_id: i32,
    pub email: String,
    pub fullname: String,
    /// The stored ciphertext of the password (see `encrypt_text`).
    pub password_hash: String,
    pub disabled_login: bool,
    pub picture: Option<String>,
    /// Registration time, in unix seconds.
    pub register_date: i64,
}

pub struct AccountView {
    pub user_id: i32,
    pub email: Seq<char>,
    pub fullname: Seq<char>,
    pub password_hash: Seq<char>,
    pub disabled_login: bool,
    pub picture: Option<Seq<char>>,
    pub register_date: i64,
}

impl View for UserAccount {
    type V = AccountView;

    open spec fn view(&self) -> AccountView {
        AccountView {
            user_id: self.user_id,
            email: self.email@,
            fullname: self.fullname@,
            password_hash: self.password_hash@,
            disabled_login: self.disabled_login,
            picture: opt_view(self.picture),
            register_date: self.register_date,
        }
    }
}

/// The claims of a successful login, before any token is issued.
pub open spec fn login_claims(
    a: AccountView,
    device: Seq<char>,
    ip: Seq<char>,
    app: Seq<char>,
) -> ClaimsView {
    ClaimsView {
        result: true,
        usernid: a.user_id,
        email: a.email,
        fullname: a.fullname,
        disabled_login: false,
        expired_token: 0,
        expired_date: Seq::empty(),
        register_date: a.register_date,
        exp: 0,
        picture: a.picture,
        comp_name: Some(device),
        ip_address: Some(ip),
        app_name: Some(app),
    }
}

/// The verdict on a login. A disabled account is reported as such whatever
/// the password; a missing account and a wrong password are not told apart.
pub open spec fn login_outcome(
    account: Option<AccountView>,
    email: Seq<char>,
    digest: Seq<char>,
    device: Seq<char>,
    ip: Seq<char>,
    app: Seq<char>,
) -> Result<ClaimsView, AuthError> {
    match account {
        None => Err(AuthError::InvalidCredentials),
        Some(a) => if a.email != email {
            Err(AuthError::InvalidCredentials)
        } else if a.disabled_login {
            Err(AuthError::AccountDisabled)
        } else if a.password_hash != digest {
            Err(AuthError::InvalidCredentials)
        } else {
            Ok(login_claims(a, device, ip, app))
        },
    }
}

pub open spec fn claims_result_view(r: Result<Claims, AuthError>) -> Result<ClaimsView, AuthError> {
    match r {
        Ok(c) => Ok(c@),
        Err(e) => Err(e),
    }
}

/// Checks a login whose password has already been turned into its stored
/// form `digest`, against `account`, the user store's answer for `email`.
pub fn check_credentials(
    account: Option<&UserAccount>,
    email: &str,
    digest: &str,
    device: &str,
    ip: &str,
    app_name: &str,
) -> (r: Result<Claims, AuthError>)
    ensures
        claims_result_view(r) == login_outcome(
            match account {
                Some(a) => Some(a@),
                None => None,
            },
            email@,
            digest@,
            device@,
            ip@,
            app_name@,
        ),
{
    match account {
        None => Err(AuthError::InvalidCredentials),
        Some(a) => {
            if !same_text(a.email.as_str(), email) {
                Err(AuthError::InvalidCredentials)
            } else if a.disabled_login {
                Err(AuthError::AccountDisabled)
            } else if !same_text(a.password_hash.as_str(), digest) {
                Err(AuthError::InvalidCredentials)
            } else {
                Ok(
                    Claims {
                        result: true,
                        usernid: a.user_id,
                        email: a.email.clone(),
                        fullname: a.fullname.clone(),
                        disabled_login: false,
                        expired_token: 0,
                        expired_date: String::new(),
                        register_date: a.register_date,
                        exp: 0,
                        picture: crate::claims::clone_opt(&a.picture),
                        comp_name: Some(device.to_string()),
                        ip_address: Some(ip.to_string()),
                        app_name: Some(app_name.to_string()),
                    },
                )
            }
        },
    }
}

impl AuthService {
    /// Authenticates the e-mail and password of `request` (a missing one
    /// counts as empty) against `account`, the user store's answer for that
    /// e-mail. The password is compared in its stored form, derived without a
    /// random salt.
    pub fn login(
        config: &AuthConfig,
        request: &LoginRequest,
        account: Option<&UserAccount>,
        device: &str,
        ip: &str,
        app_name: &str,
    ) -> (r: Result<Claims, AuthError>)
        requires
            config.crypto_secret@.len() == 32,
        ensures
            claims_result_view(r) == login_outcome(
                match account {
                    Some(a) => Some(a@),
                    None => None,
                },
                or_empty(opt_view(request.email)),
                ciphertext_of(or_empty(opt_view(request.password)), config.crypto_secret@),
                device@,
                ip@,
                app_name@,
            ),
    {
        let email = text_or_empty(&request.email);
        let password = text_or_empty(&request.password);
        let digest = encrypt_text(password.as_str(), config.crypto_secret.as_slice());
        check_credentials(account, email.as_str(), digest.as_str(), device, ip, app_name)
    }
}

} // verus!
