use vstd::prelude::*;
use crate::claims::{
    access_json, issuer_text, access_from_json, refresh_from_json, 
    refresh_json, AccessView, RefreshView, SessionClaims, SessionRefreshClaims, TokenType,
};
use crate::error::ServiceError;
use crate::keys::{is_valid_jti, jti_ok};

verus! {

/// The token that RS256 signing gives for a payload text under a private key
/// in PEM form; `None` where the key does not parse or signing fails.
pub uninterp spec fn signed_jwt(payload: Seq<char>, private_pem: Seq<u8>) -> Option<Seq<char>>;

/// The payload text of a token whose RS256 signature checks under a public
/// key in PEM form; `None` where the token is not well formed or its
/// signature does not check.
pub uninterp spec fn jwt_payload(token: Seq<char>, public_pem: Seq<u8>) -> Option<Seq<char>>;

/// Relies on jsonwebtoken::encode with an RS256 header and
/// EncodingKey::from_rsa_pem: the payload text is signed as it stands, handed
/// over as serde_json's RawValue.
#[verifier::external_body]
fn jwt_sign(payload: &str, private_pem: &[u8]) -> (r: Option<String>)
    ensures
        match r {
            Some(t) => signed_jwt(payload@, private_pem@) == Some(t@),
            None => signed_jwt(payload@, private_pem@) is None,
        },
{
    let key = jsonwebtoken::EncodingKey::from_rsa_pem(private_pem).ok()?;
    let raw = serde_json::value::RawValue::from_string(payload.to_string()).ok()?;
    let header = jsonwebtoken::Header::new(jsonwebtoken::Algorithm::RS256);
    jsonwebtoken::encode(&header, &raw, &key).ok()
}

/// Relies on jsonwebtoken::decode with DecodingKey::from_rsa_pem: it checks
/// the RS256 signature and hands back the payload text as serde_json's
/// RawValue. Expiry is not checked there: that is done on the claims, against
/// the caller's clock.
#[verifier::external_body]
fn jwt_verify(token: &str, public_pem: &[u8]) -> (r: Option<String>)
    ensures
        match r {
            Some(p) => jwt_payload(token@, public_pem@) == Some(p@),
            None => jwt_payload(token@, public_pem@) is None,
        },
{
    let key = jsonwebtoken::DecodingKey::from_rsa_pem(public_pem).ok()?;
    let mut validation = jsonwebtoken::Validation::new(jsonwebtoken::Algorithm::RS256);
    validation.validate_exp = false;
    validation.required_spec_claims.clear();
    let data = jsonwebtoken::decode::<Box<serde_json::value::RawValue>>(token, &key, &validation);
    Some(data.ok()?.claims.get().to_string())
}

/// Why a token was not accepted.
#[derive(PartialEq, Eq, Structural, Clone, Copy, Debug)]
pub enum TokenError {
    /// The token or its claims are not of the expected shape.
    Malformed,
    /// The claims expired at or before the verifier's clock.
    Expired,
    /// The claims name another issuer.
    WrongIssuer,
    /// The signature does not check under the key of the token's class.
    BadSignature,
}

/// The failure reported to a caller for a token that was not accepted.
pub open spec fn token_failure(e: TokenError) -> ServiceError {
    match e {
        TokenError::Expired => ServiceError::ExpiredToken,
        _ => ServiceError::InvalidToken,
    }
}

impl TokenError {
    pub fn to_service_error(&self) -> (r: ServiceError)
        ensures
            r == token_failure(*self),
    {
        match self {
            TokenError::Expired => ServiceError::ExpiredToken,
            _ => ServiceError::InvalidToken,
        }
    }
}

/// Key material of both token classes, as PEM text.
pub struct SigningKeys {
    pub access_private: Vec<u8>,
    pub access_public: Vec<u8>,
    pub refresh_private: Vec<u8>,
    pub refresh_public: Vec<u8>,
}

impl SigningKeys {
    pub open spec fn private_of(&self, t: TokenType) -> Seq<u8> {
        match t {
            TokenType::AccessToken => self.access_private@,
            TokenType::RefreshToken => self.refresh_private@,
        }
    }

    pub open spec fn public_of(&self, t: TokenType) -> Seq<u8> {
        match t {
            TokenType::AccessToken => self.access_public@,
            TokenType::RefreshToken => self.refresh_public@,
        }
    }
}

/// What verifying a token of the access class at time `now` gives.
pub open spec fn access_verdict(token: Seq<char>, now: u32, keys: SigningKeys) -> Result<
    AccessView,
    TokenError,
> {
    match jwt_payload(token, keys.public_of(TokenType::AccessToken)) {
        None => Err(TokenError::BadSignature),
        Some(p) => match access_from_json(p) {
            None => Err(TokenError::Malformed),
            Some(c) => if c.iss != issuer_text() {
                Err(TokenError::WrongIssuer)
            } else if c.exp <= now {
                Err(TokenError::Expired)
            } else if !jti_ok(c.jti) {
                Err(TokenError::Malformed)
            } else {
                Ok(c)
            },
        },
    }
}

/// What verifying a token of the refresh class at time `now` gives.
pub open spec fn refresh_verdict(token: Seq<char>, now: u32, keys: SigningKeys) -> Result<
    RefreshView,
    TokenError,
> {
    match jwt_payload(token, keys.public_of(TokenType::RefreshToken)) {
        None => Err(TokenError::BadSignature),
        Some(p) => match refresh_from_json(p) {
            None => Err(TokenError::Malformed),
            Some(c) => if c.iss != issuer_text() {
                Err(TokenError::WrongIssuer)
            } else if c.exp <= now {
                Err(TokenError::Expired)
            } else if !jti_ok(c.jti) || !jti_ok(c.access_token_jti) {
                Err(TokenError::Malformed)
            } else {
                Ok(c)
            },
        },
    }
}

/// A signing result that can stand in a header: an empty token counts as a
/// failure of the signer.
pub open spec fn usable(r: Option<Seq<char>>) -> Option<Seq<char>> {
    match r {
        Some(t) => if t.len() > 0 {
            Some(t)
        } else {
            None
        },
        None => None,
    }
}

/// The token that signing access claims gives.
pub open spec fn access_token_of(c: AccessView, keys: SigningKeys) -> Option<Seq<char>> {
    usable(signed_jwt(access_json(c), keys.private_of(TokenType::AccessToken)))
}

/// The token that signing refresh claims gives.
pub open spec fn refresh_token_of(c: RefreshView, keys: SigningKeys) -> Option<Seq<char>> {
    usable(signed_jwt(refresh_json(c), keys.private_of(TokenType::RefreshToken)))
}

/// Claims are well formed for verification at `now`: issued by this service
/// and not yet expired.
pub open spec fn live_at(iss: Seq<char>, exp: u32, now: u32) -> bool {
    iss == issuer_text() && now < exp
}

/// The public half of a key pair accepts, unchanged, whatever its private
/// half signed.
pub open spec fn key_pair_matches(private_pem: Seq<u8>, public_pem: Seq<u8>) -> bool {
    forall|p: Seq<char>|
        #[trigger] signed_jwt(p, private_pem) is Some ==> jwt_payload(
            signed_jwt(p, private_pem)->Some_0,
            public_pem,
        ) == Some(p)
}

/// Signs access claims with the access-class key; `DependencyUnavailable`
/// where the key material is unusable or signing fails.
pub fn sign_access(claims: &SessionClaims, keys: &SigningKeys) -> (r: Result<String, ServiceError>)
    ensures
        match r {
            Ok(t) => access_token_of(claims@, *keys) == Some(t@),
            Err(e) => access_token_of(claims@, *keys) is None && e is DependencyUnavailable,
        },
{
    let payload = claims.to_json();
    match jwt_sign(payload.as_str(), keys.access_private.as_slice()) {
        Some(t) => if t.unicode_len() > 0 {
            Ok(t)
        } else {
            Err(ServiceError::DependencyUnavailable)
        },
        None => Err(ServiceError::DependencyUnavailable),
    }
}

/// Signs refresh claims with the refresh-class key, as `sign_access` does.
pub fn sign_refresh(claims: &SessionRefreshClaims, keys: &SigningKeys) -> (r: Result<String, ServiceError>)
    ensures
        match r {
            Ok(t) => refresh_token_of(claims@, *keys) == Some(t@),
            Err(e) => refresh_token_of(claims@, *keys) is None && e is DependencyUnavailable,
        },
{
    let payload = claims.to_json();
    match jwt_sign(payload.as_str(), keys.refresh_private.as_slice()) {
        Some(t) => if t.unicode_len() > 0 {
            Ok(t)
        } else {
            Err(ServiceError::DependencyUnavailable)
        },
        None => Err(ServiceError::DependencyUnavailable),
    }
}

/// Verifies a token of the access class at time `now`.
pub fn decode_access_token(token: &str, now: u32, keys: &SigningKeys) -> (r: Result<
    SessionClaims,
    TokenError,
>)
    ensures
        match r {
            Ok(c) => access_verdict(token@, now, *keys) == Ok::<AccessView, TokenError>(c@),
            Err(e) => access_verdict(token@, now, *keys) == Err::<AccessView, TokenError>(e),
        },
{
    let payload = match jwt_verify(token, keys.access_public.as_slice()) {
        Some(p) => p,
        None => return Err(TokenError::BadSignature),
    };
    let claims = match SessionClaims::from_json(payload.as_str()) {
        Some(c) => c,
        None => return Err(TokenError::Malformed),
    };
    let expected = crate::claims::issuer();
    if claims.iss != expected {
        return Err(TokenError::WrongIssuer);
    }
    if claims.exp <= now {
        return Err(TokenError::Expired);
    }
    if !is_valid_jti(claims.jti.as_str()) {
        return Err(TokenError::Malformed);
    }
    Ok(claims)
}

/// Verifies a token of the refresh class at time `now`.
pub fn decode_refresh_token(token: &str, now: u32, keys: &SigningKeys) -> (r: Result<
    SessionRefreshClaims,
    TokenError,
>)
    ensures
        match r {
            Ok(c) => refresh_verdict(token@, now, *keys) == Ok::<RefreshView, TokenError>(c@),
            Err(e) => refresh_verdict(token@, now, *keys) == Err::<RefreshView, TokenError>(e),
        },
{
    let payload = match jwt_verify(token, keys.refresh_public.as_slice()) {
        Some(p) => p,
        None => return Err(TokenError::BadSignature),
    };
    let claims = match SessionRefreshClaims::from_json(payload.as_str()) {
        Some(c) => c,
        None => return Err(TokenError::Malformed),
    };
    let expected = crate::claims::issuer();
    if claims.iss != expected {
        return Err(TokenError::WrongIssuer);
    }
    if claims.exp <= now {
        return Err(TokenError::Expired);
    }
    if !is_valid_jti(claims.jti.as_str()) || !is_valid_jti(claims.access_token_jti.as_str()) {
        return Err(TokenError::Malformed);
    }
    Ok(claims)
}

/// Verifying what was signed gives back the claims: for access claims of this issuer that have not expired at `now`, signed under a
/// matching key pair.
pub proof fn lemma_verify_signed_access(c: AccessView, keys: SigningKeys, now: u32)
    requires
        key_pair_matches(keys.access_private@, keys.access_public@),
        live_at(c.iss, c.exp, now),
        jti_ok(c.jti),
        access_token_of(c, keys) is Some,
    ensures
        access_verdict(access_token_of(c, keys)->Some_0, now, keys) == Ok::<AccessView, TokenError>(c),
{
    crate::claims::lemma_access_json_round_trip(c);
    let t = access_token_of(c, keys)->Some_0;
    assert(signed_jwt(access_json(c), keys.access_private@) == Some(t));
}

/// Verifying what was signed gives back the claims, for refresh claims.
pub proof fn lemma_verify_signed_refresh(c: RefreshView, keys: SigningKeys, now: u32)
    requires
        key_pair_matches(keys.refresh_private@, keys.refresh_public@),
        live_at(c.iss, c.exp, now),
        jti_ok(c.jti),
        jti_ok(c.access_token_jti),
        refresh_token_of(c, keys) is Some,
    ensures
        refresh_verdict(refresh_token_of(c, keys)->Some_0, now, keys) == Ok::<RefreshView, TokenError>(c),
{
    crate::claims::lemma_refresh_json_round_trip(c);
    let t = refresh_token_of(c, keys)->Some_0;
    assert(signed_jwt(refresh_json(c), keys.refresh_private@) == Some(t));
}

} // verus!
