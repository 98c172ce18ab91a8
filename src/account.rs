use vstd::prelude::*;
use crate::error::ServiceError;
use crate::lifecycle::RegistrationPayload;
use crate::password::password_verdict;
use crate::tokens::AuthenticationTokens;

verus! {

/// Relies on argon2's PasswordHasher::hash_password with the default
/// parameters and a salt from SaltString::generate over OsRng: a PHC hash
/// string, which the crate documents to verify against the same password.
#[verifier::external_body]
fn hash_password(password: &str) -> (r: Option<String>)
    ensures
        r matches Some(h) ==> password_verdict(password@, h@) == Some(true),
{
    let salt = argon2::password_hash::SaltString::generate(&mut argon2::password_hash::rand_core::OsRng);
    let hashed = argon2::PasswordHasher::hash_password(&argon2::Argon2::default(), password.as_bytes(), &salt);
    Some(hashed.ok()?.to_string())
}

/// An account record: its password is held as a PHC hash string.
pub struct User {
    pub username: String,
    pub password: String,
    pub device_id: Vec<String>,
}

/// What registration returns to the caller.
pub struct RegistrationResponse {
    pub username: String,
}

/// What login returns to the caller.
pub struct LoginResponse {
    pub access_token: String,
    pub refresh_token: String,
}

/// What refresh returns to the caller.
pub struct RefreshResponse {
    pub access_token: String,
    pub refresh_token: String,
}

/// Registers an account, given whether one of that username exists already:
/// `Conflict` where it does; otherwise the new record, whose stored hash
/// accepts the chosen password, with the registering device.
pub fn register_user(payload: RegistrationPayload, account_exists: bool) -> (r: Result<User, ServiceError>)
    ensures
        account_exists ==> (r matches Err(e) && e is Conflict),
        !account_exists ==> match r {
            Ok(u) => u.username@ == payload.username@ && password_verdict(payload.password@, u.password@)
                == Some(true) && u.device_id@.len() == 1 && u.device_id@[0]@ == payload.device_id@,
            Err(e) => e is InternalServerError,
        },
{
    if account_exists {
        return Err(ServiceError::Conflict(String::from_str("An account with that username already exists.")));
    }
    let hash = match hash_password(payload.password.as_str()) {
        Some(h) => h,
        None => return Err(ServiceError::InternalServerError(String::from_str("failed to hash the password"))),
    };
    let mut devices: Vec<String> = Vec::new();
    devices.push(payload.device_id);
    Ok(User { username: payload.username, password: hash, device_id: devices })
}

impl User {
    pub fn registration_response(&self) -> (r: RegistrationResponse)
        ensures
            r.username@ == self.username@,
    {
        RegistrationResponse { username: self.username.clone() }
    }
}

impl AuthenticationTokens {
    pub fn login_response(&self) -> (r: LoginResponse)
        ensures
            r.access_token@ == self.access_token@,
            r.refresh_token@ == self.refresh_token@,
    {
        LoginResponse { access_token: self.access_token.clone(), refresh_token: self.refresh_token.clone() }
    }

    pub fn refresh_response(&self) -> (r: RefreshResponse)
        ensures
            r.access_token@ == self.access_token@,
            r.refresh_token@ == self.refresh_token@,
    {
        RefreshResponse { access_token: self.access_token.clone(), refresh_token: self.refresh_token.clone() }
    }
}

} // verus!
