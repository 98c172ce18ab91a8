use vstd::prelude::*;
use crate::error::ServiceError;

verus! {

pub open spec fn is_hex_or_dash(c: char) -> bool {
    ('0' <= c && c <= '9') || ('a' <= c && c <= 'f') || c == '-'
}

/// Relies on uuid::Uuid::new_v4 and its hyphenated lower-case text form:
/// 36 characters, each a hex digit or '-'.
#[verifier::external_body]
fn random_uuid() -> (r: String)
    ensures
        r@.len() == 36,
        forall|i: int| 0 <= i < 36 ==> is_hex_or_dash(#[trigger] r@[i]),
{
    uuid::Uuid::new_v4().to_string()
}

/// Relies on chrono::Utc::now and DateTime::timestamp: seconds since the
/// Unix epoch.
#[verifier::external_body]
fn unix_seconds() -> (r: i64) {
    chrono::Utc::now().timestamp()
}

/// A fresh session identifier: a random UUID, which holds no ':'.
pub fn new_jti() -> (r: String)
    ensures
        r@.len() == 36,
        !r@.contains(':'),
{
    let r = random_uuid();
    proof {
        if r@.contains(':') {
            let i = choose|i: int| 0 <= i < r@.len() && r@[i] == ':';
            assert(is_hex_or_dash(r@[i]));
        }
    }
    r
}

/// Clock seconds as claims hold them: the same number where it lies in
/// `0..=u32::MAX`, an internal error elsewhere.
pub fn claims_time(t: i64) -> (r: Result<u32, ServiceError>)
    ensures
        0 <= t <= u32::MAX ==> (r matches Ok(s) && s as int == t),
        (t < 0 || t > u32::MAX) ==> (r matches Err(e) && e is InternalServerError),
{
    if t < 0 || t > 4294967295 {
        return Err(ServiceError::InternalServerError(String::from_str("clock out of range")));
    }
    Ok(t as u32)
}

/// The current time in seconds since the Unix epoch, as `claims_time` gives
/// it for the clock's reading; an internal error once the clock passes the
/// range that claims can hold. (A clock set before 1970 makes chrono panic
/// before any reading is returned.)
pub fn current_time() -> (r: Result<u32, ServiceError>)
    ensures
        r matches Err(e) ==> e is InternalServerError,
{
    claims_time(unix_seconds())
}

} // verus!
