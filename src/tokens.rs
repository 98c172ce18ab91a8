use vstd::prelude::*;
use crate::claims::{
    issuer_text, AccessView, RefreshView, SessionClaims,
    SessionRefreshClaims, EXPIRATION_TIME, REFRESH_EXPIRATION_TIME,
};
use crate::error::{kind_of, ErrorKind, ServiceError};
use crate::keys::{is_valid_jti, jti_ok};
use crate::signer::{access_token_of, refresh_token_of, sign_access, sign_refresh, SigningKeys};

verus! {

/// A signed access/refresh pair together with the claims they carry.
pub struct AuthenticationTokens {
    pub access_token: String,
    pub refresh_token: String,
    pub session: SessionClaims,
    pub refresh_session: SessionRefreshClaims,
}

pub struct TokensView {
    pub access_token: Seq<char>,
    pub refresh_token: Seq<char>,
    pub session: AccessView,
    pub refresh_session: RefreshView,
}

impl View for AuthenticationTokens {
    type V = TokensView;

    open spec fn view(&self) -> TokensView {
        TokensView {
            access_token: self.access_token@,
            refresh_token: self.refresh_token@,
            session: self.session@,
            refresh_session: self.refresh_session@,
        }
    }
}

impl AuthenticationTokens {
    pub fn new(
        access_token: String,
        refresh_token: String,
        session: SessionClaims,
        refresh_session: SessionRefreshClaims,
    ) -> (r: Self)
        ensures
            r@ == (TokensView {
                access_token: access_token@,
                refresh_token: refresh_token@,
                session: session@,
                refresh_session: refresh_session@,
            }),
    {
        AuthenticationTokens { access_token, refresh_token, session, refresh_session }
    }
}

/// The access claims of a pair minted at `now`.
pub open spec fn minted_access(username: Seq<char>, device: Seq<char>, now: u32, ja: Seq<char>) -> AccessView {
    AccessView {
        username: username,
        device_id: device,
        exp: (now + EXPIRATION_TIME) as u32,
        iat: now,
        iss: issuer_text(),
        jti: ja,
    }
}

/// The refresh claims of a pair minted at `now`, linked to the access jti.
pub open spec fn minted_refresh(now: u32, ja: Seq<char>, jr: Seq<char>) -> RefreshView {
    RefreshView {
        access_token_jti: ja,
        exp: (now + REFRESH_EXPIRATION_TIME) as u32,
        iat: now,
        iss: issuer_text(),
        jti: jr,
    }
}

/// What minting a fresh pair gives, with access jti `ja` and refresh jti `jr`.
pub open spec fn mint(
    username: Seq<char>,
    device: Seq<char>,
    now: u32,
    ja: Seq<char>,
    jr: Seq<char>,
    keys: SigningKeys,
) -> Result<TokensView, ErrorKind> {
    let a = minted_access(username, device, now, ja);
    let r = minted_refresh(now, ja, jr);
    if !jti_ok(ja) || !jti_ok(jr) || ja == jr {
        Err(ErrorKind::InternalServerError)
    } else if now + REFRESH_EXPIRATION_TIME > u32::MAX {
        Err(ErrorKind::InternalServerError)
    } else {
        match access_token_of(a, keys) {
            None => Err(ErrorKind::DependencyUnavailable),
            Some(at) => match refresh_token_of(r, keys) {
                None => Err(ErrorKind::DependencyUnavailable),
                Some(rt) => Ok(
                    TokensView { access_token: at, refresh_token: rt, session: a, refresh_session: r },
                ),
            },
        }
    }
}

/// Mints a linked access/refresh pair for a user's device at `now`, under the
/// fresh identifiers `access_jti` and `refresh_jti`, and signs both.
pub fn create_tokens(
    username: String,
    device_id: String,
    now: u32,
    access_jti: String,
    refresh_jti: String,
    keys: &SigningKeys,
) -> (r: Result<AuthenticationTokens, ServiceError>)
    ensures
        match r {
            Ok(t) => mint(username@, device_id@, now, access_jti@, refresh_jti@, *keys) == Ok::<
                TokensView,
                ErrorKind,
            >(t@),
            Err(e) => mint(username@, device_id@, now, access_jti@, refresh_jti@, *keys) == Err::<
                TokensView,
                ErrorKind,
            >(kind_of(e)),
        },
{
    if !is_valid_jti(access_jti.as_str()) || !is_valid_jti(refresh_jti.as_str())
        || access_jti == refresh_jti {
        return Err(ServiceError::InternalServerError(String::from_str("session identifiers collide")));
    }
    let link = access_jti.clone();
    let session = match SessionClaims::issue(username, device_id, now, access_jti) {
        Some(c) => c,
        None => return Err(ServiceError::InternalServerError(String::from_str("clock out of range"))),
    };
    let refresh_session = match SessionRefreshClaims::issue(link, now, refresh_jti) {
        Some(c) => c,
        None => return Err(ServiceError::InternalServerError(String::from_str("clock out of range"))),
    };
    let access_token = match sign_access(&session, keys) {
        Ok(t) => t,
        Err(e) => return Err(e),
    };
    let ghost a = minted_access(username@, device_id@, now, access_jti@);
    let ghost rv = minted_refresh(now, access_jti@, refresh_jti@);
    assert(session@ == a);
    assert(refresh_session@ == rv);
    assert(access_token_of(a, *keys) == Some(access_token@));
    let refresh_token = match sign_refresh(&refresh_session, keys) {
        Ok(t) => t,
        Err(e) => {
            assert(refresh_token_of(rv, *keys) is None);
            return Err(e);
        },
    };
    assert(!(now + REFRESH_EXPIRATION_TIME > u32::MAX));
    assert(jti_ok(access_jti@) && jti_ok(refresh_jti@) && access_jti@ != refresh_jti@);
    let out = AuthenticationTokens::new(access_token, refresh_token, session, refresh_session);
    assert(mint(username@, device_id@, now, access_jti@, refresh_jti@, *keys) == Ok::<TokensView, ErrorKind>(out@));
    Ok(out)
}

/// A freshly minted pair always has two distinct jtis, and the refresh claims
/// name the access session they renew.
pub proof fn lemma_minted_pair_linked(
    username: Seq<char>,
    device: Seq<char>,
    now: u32,
    ja: Seq<char>,
    jr: Seq<char>,
    keys: SigningKeys,
)
    requires
        mint(username, device, now, ja, jr, keys) is Ok,
    ensures
        ({
            let t = mint(username, device, now, ja, jr, keys)->Ok_0;
            &&& t.session.jti != t.refresh_session.jti
            &&& t.refresh_session.access_token_jti == t.session.jti
            &&& t.session.username == username
            &&& t.session.device_id == device
        }),
{
}

} // verus!
