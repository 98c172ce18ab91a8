use vstd::prelude::*;

verus! {

/// Whether argon2 accepts `password` against the stored PHC hash string
/// `hash`; `None` where the hash string does not parse.
pub uninterp spec fn password_verdict(password: Seq<char>, hash: Seq<char>) -> Option<bool>;

/// Relies on argon2's PasswordHash::new and PasswordVerifier::verify_password:
/// the hash string carries its own salt and parameters, so the answer depends
/// on the two strings alone.
#[verifier::external_body]
pub(crate) fn verify_password(password: &str, hash: &str) -> (r: Option<bool>)
    ensures
        r == password_verdict(password@, hash@),
{
    let parsed = argon2::PasswordHash::new(hash).ok()?;
    let argon = argon2::Argon2::default();
    Some(argon2::PasswordVerifier::verify_password(&argon, password.as_bytes(), &parsed).is_ok())
}

} // verus!
