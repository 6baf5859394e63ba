//! Request and response shapes exchanged with the HTTP layer.
use vstd::prelude::*;

verus! {

/// The envelope every service call returns.
#[derive(Debug)]
pub struct ActionResult<T, E> {
    pub result: bool,
    pub message: String,
    pub data: Option<T>,
    pub error: Option<E>,
}

impl<T, E> Default for ActionResult<T, E> {
    fn default() -> (r: Self)
        ensures
            !r.result,
            r.message@.len() == 0,
            r.data is None,
            r.error is None,
    {
        ActionResult { result: false, message: String::new(), data: None, error: None }
    }
}

#[derive(Debug, Clone)]
pub struct Company {
    pub company_id: String,
    pub company_name: String,
}

#[derive(Debug, Clone)]
pub struct LoginRequest {
    pub email: Option<String>,
    pub password: Option<String>,
}

#[derive(Debug, Clone)]
pub struct RegisterRequest {
    pub email: Option<String>,
    pub password: Option<String>,
    pub mobile_phone: Option<String>,
    pub full_name: Option<String>,
    pub sales: i32,
    pub referal: String,
    pub client_category: Option<i32>,
    pub app_ipaddress: String,
}

#[derive(Debug, Clone)]
pub struct ResetPasswordRequest {
    pub email: Option<String>,
}

#[derive(Debug, Clone)]
pub struct ChangePasswordRequest {
    pub email: Option<String>,
    pub password: Option<String>,
    pub reset_password_key: String,
}

#[derive(Debug, Clone)]
pub struct ContactRequest {
    pub name: String,
    pub email: String,
    pub subject: String,
    pub message: String,
}

#[derive(Debug, Clone)]
pub struct EmailRequest {
    pub name: String,
    pub subject: String,
    pub recipient: String,
    pub message: String,
}

#[derive(Debug, Clone)]
pub struct SendEmailRequest {
    pub company_name: String,
    pub email: String,
    pub front_url: String,
    pub subject: String,
    pub url_token: String,
    pub username: String,
    pub title: String,
    pub otp_code: i32,
}

} // verus!
