use vstd::prelude::*;
use crate::claims::{AccessView, SessionClaims};
use crate::codec::{strip_literal, take_lit};
use crate::error::{kind_of, ErrorKind, ServiceError};
use crate::keys::{session_key, lemma_session_key_injective, lemma_session_refresh_disjoint};
use crate::lifecycle::{
    apply_writes, logout_in, lookup, pair_deletes, pair_writes, refresh_in, StoreModel,
};
use crate::signer::{
    access_verdict, decode_access_token, key_pair_matches, live_at, token_failure, SigningKeys,
    TokenError,
};
use crate::tokens::TokensView;

verus! {

/// `s` starts with `p`.
pub open spec fn starts_with(s: Seq<char>, p: Seq<char>) -> bool {
    p.len() <= s.len() && s.subrange(0, p.len() as int) == p
}

/// Paths that need no token: registration, login and refresh.
pub open spec fn allow_listed(path: Seq<char>) -> bool {
    starts_with(path, "/api/v1/auth/register"@) || starts_with(path, "/api/v1/auth/login"@)
        || starts_with(path, "/api/v1/auth/refresh"@)
}

/// The token of an `Authorization` header of the form `Bearer <token>`, with
/// a non-empty token.
pub open spec fn bearer_token(header: Option<Seq<char>>) -> Option<Seq<char>> {
    match header {
        None => None,
        Some(h) => if starts_with(h, "Bearer "@) && h.len() > 7 {
            Some(h.subrange(7, h.len() as int))
        } else {
            None
        },
    }
}

/// What the authentication middleware decides before it consults the store.
pub enum GateStep {
    /// The path is allow-listed: the request proceeds without claims.
    Pass,
    /// The request is refused.
    Reject(ServiceError),
    /// The token verified; the request proceeds once the session is found.
    Check(SessionClaims),
}

pub enum GateView {
    Pass,
    Reject(ErrorKind),
    Check(AccessView),
}

impl View for GateStep {
    type V = GateView;

    open spec fn view(&self) -> GateView {
        match self {
            GateStep::Pass => GateView::Pass,
            GateStep::Reject(e) => GateView::Reject(kind_of(*e)),
            GateStep::Check(c) => GateView::Check(c@),
        }
    }
}

pub open spec fn gate_step(header: Option<Seq<char>>, path: Seq<char>, now: u32, keys: SigningKeys) -> GateView {
    if allow_listed(path) {
        GateView::Pass
    } else {
        match bearer_token(header) {
            None => GateView::Reject(ErrorKind::MissingToken),
            Some(t) => match access_verdict(t, now, keys) {
                Err(e) => GateView::Reject(kind_of(token_failure(e))),
                Ok(c) => GateView::Check(c),
            },
        }
    }
}

/// A request check against the store `m`: the claims a request proceeds with
/// (`None` on an allow-listed path), or why it is refused.
pub open spec fn gate_in(
    m: StoreModel,
    header: Option<Seq<char>>,
    path: Seq<char>,
    now: u32,
    keys: SigningKeys,
) -> Result<Option<AccessView>, ErrorKind> {
    match gate_step(header, path, now, keys) {
        GateView::Pass => Ok(None),
        GateView::Reject(k) => Err(k),
        GateView::Check(c) => if m.contains_key(session_key(c.jti)) {
            Ok(Some(c))
        } else {
            Err(ErrorKind::InvalidToken)
        },
    }
}

pub open spec fn opt_str_view(o: Option<&str>) -> Option<Seq<char>> {
    match o {
        Some(s) => Some(s@),
        None => None,
    }
}

/// The per-request authentication middleware: a request proceeds only with a live access token
/// whose session is still in the store.
pub struct AuthenticationMiddleware {}

impl AuthenticationMiddleware {
    pub fn new() -> (r: Self) {
        AuthenticationMiddleware {}
    }

    /// Whether a request on `path` must carry a token.
    pub fn check_required_auth(&self, path: &str) -> (r: bool)
        ensures
            r == !allow_listed(path@),
    {
        let on_register = strip_literal(path, "/api/v1/auth/register").is_some();
        let on_login = strip_literal(path, "/api/v1/auth/login").is_some();
        let on_refresh = strip_literal(path, "/api/v1/auth/refresh").is_some();
        !(on_register || on_login || on_refresh)
    }

    /// First step of a request check: checks the path, the header and the token at
    /// `now`.
    pub fn begin(&self, header: Option<&str>, path: &str, now: u32, keys: &SigningKeys) -> (r: GateStep)
        ensures
            r@ == gate_step(opt_str_view(header), path@, now, *keys),
    {
        if !self.check_required_auth(path) {
            return GateStep::Pass;
        }
        let h = match header {
            Some(h) => h,
            None => return GateStep::Reject(ServiceError::MissingToken),
        };
        let token = match strip_literal(h, "Bearer ") {
            Some(t) => t,
            None => return GateStep::Reject(ServiceError::MissingToken),
        };
        proof {
            reveal_strlit("Bearer ");
        }
        if token.unicode_len() == 0 {
            return GateStep::Reject(ServiceError::MissingToken);
        }
        match decode_access_token(token, now, keys) {
            Ok(c) => GateStep::Check(c),
            Err(e) => GateStep::Reject(e.to_service_error()),
        }
    }

    /// Second step of a request check: the claims proceed only while their session
    /// exists in the store.
    pub fn finish(&self, claims: SessionClaims, session_exists: bool) -> (r: Result<SessionClaims, ServiceError>)
        ensures
            match r {
                Ok(c) => session_exists && c@ == claims@,
                Err(e) => !session_exists && e is InvalidToken,
            },
    {
        if session_exists {
            Ok(claims)
        } else {
            Err(ServiceError::InvalidToken)
        }
    }
}

/// Requests on an allow-listed path proceed, whatever header they carry and
/// whatever the store holds.
pub proof fn law_allow_listed_bypass(
    m: StoreModel,
    header: Option<Seq<char>>,
    path: Seq<char>,
    now: u32,
    keys: SigningKeys,
)
    requires
        allow_listed(path),
    ensures
        gate_in(m, header, path, now, keys) == Ok::<Option<AccessView>, ErrorKind>(None),
{
}

/// An access token that is well formed but expired is refused as expired,
/// whatever the store holds.
pub proof fn law_gate_expired(m: StoreModel, header: Option<Seq<char>>, path: Seq<char>, now: u32, keys: SigningKeys)
    requires
        !allow_listed(path),
        bearer_token(header) is Some,
        crate::signer::jwt_payload(bearer_token(header)->Some_0, keys.public_of(crate::claims::TokenType::AccessToken)) matches Some(p)
            && crate::claims::access_from_json(p) matches Some(c) && c.iss == crate::claims::issuer_text() && c.exp <= now,
    ensures
        gate_in(m, header, path, now, keys) == Err::<Option<AccessView>, ErrorKind>(ErrorKind::ExpiredToken),
{
}

/// A refresh token that is well formed but expired is refused as expired,
/// whatever the store holds, and the store is left as it was.
pub proof fn law_refresh_expired(m: StoreModel, token: Seq<char>, now: u32, ja: Seq<char>, jr: Seq<char>, keys: SigningKeys)
    requires
        crate::signer::jwt_payload(token, keys.public_of(crate::claims::TokenType::RefreshToken)) matches Some(p)
            && crate::claims::refresh_from_json(p) matches Some(c) && c.iss == crate::claims::issuer_text() && c.exp <= now,
    ensures
        refresh_in(m, token, now, ja, jr, keys) == (m, Err::<TokensView, ErrorKind>(ErrorKind::ExpiredToken)),
{
}

/// After a logout, the access token of the logged-out session is refused
/// with `InvalidToken` at any later time at which it still verifies.
pub proof fn law_gate_after_logout(
    m: StoreModel,
    header: Option<Seq<char>>,
    path: Seq<char>,
    now: u32,
    later: u32,
    c: AccessView,
    keys: SigningKeys,
)
    requires
        gate_in(m, header, path, now, keys) == Ok::<Option<AccessView>, ErrorKind>(Some(c)),
        logout_in(m, c).1 is Ok,
        !(gate_step(header, path, later, keys) is Reject),
    ensures
        gate_in(logout_in(m, c).0, header, path, later, keys) == Err::<Option<AccessView>, ErrorKind>(
            ErrorKind::InvalidToken,
        ),
{
    crate::lifecycle::law_logout_twice(m, c);
}

/// After a successful refresh, the access token of the replaced pair is
/// refused with `InvalidToken` at any later time at which it still verifies.
pub proof fn law_rotation_revokes_old_access(
    m: StoreModel,
    refresh_token: Seq<char>,
    now: u32,
    ja: Seq<char>,
    jr: Seq<char>,
    header: Option<Seq<char>>,
    path: Seq<char>,
    later: u32,
    keys: SigningKeys,
)
    requires
        refresh_in(m, refresh_token, now, ja, jr, keys).1 is Ok,
        gate_step(header, path, later, keys) matches GateView::Check(old) && old.jti
            == crate::signer::refresh_verdict(refresh_token, now, keys)->Ok_0.access_token_jti,
    ensures
        gate_in(refresh_in(m, refresh_token, now, ja, jr, keys).0, header, path, later, keys)
            == Err::<Option<AccessView>, ErrorKind>(ErrorKind::InvalidToken),
{
    let rc = crate::signer::refresh_verdict(refresh_token, now, keys)->Ok_0;
    let rec = lookup(m, crate::keys::refresh_key(rc.jti))->Some_0;
    let a = crate::claims::access_from_json(rec)->Some_0;
    let t = crate::tokens::mint(a.username, a.device_id, now, ja, jr, keys)->Ok_0;
    let m1 = rotated(m, rc.access_token_jti, rc.jti, t);
    lemma_rotated(m, rc.access_token_jti, rc.jti, t);
    assert(refresh_in(m, refresh_token, now, ja, jr, keys).0 == m1);
    lemma_session_key_injective(ja, rc.access_token_jti);
    lemma_session_refresh_disjoint(rc.access_token_jti, jr);
    assert(!m1.contains_key(session_key(rc.access_token_jti)));
}

/// After a successful refresh, the new access token is accepted with its own
/// claims while it lives, for key material whose halves match.
pub proof fn law_rotation_grants_new_access(
    m: StoreModel,
    refresh_token: Seq<char>,
    now: u32,
    ja: Seq<char>,
    jr: Seq<char>,
    path: Seq<char>,
    later: u32,
    keys: SigningKeys,
)
    requires
        key_pair_matches(keys.access_private@, keys.access_public@),
        refresh_in(m, refresh_token, now, ja, jr, keys).1 is Ok,
        later < refresh_in(m, refresh_token, now, ja, jr, keys).1->Ok_0.session.exp,
        !allow_listed(path),
    ensures
        ({
            let t = refresh_in(m, refresh_token, now, ja, jr, keys).1->Ok_0;
            gate_in(
                refresh_in(m, refresh_token, now, ja, jr, keys).0,
                Some("Bearer "@ + t.access_token),
                path,
                later,
                keys,
            ) == Ok::<Option<AccessView>, ErrorKind>(Some(t.session))
        }),
{
    reveal_strlit("Bearer ");
    let rc = crate::signer::refresh_verdict(refresh_token, now, keys)->Ok_0;
    let rec = lookup(m, crate::keys::refresh_key(rc.jti))->Some_0;
    let a = crate::claims::access_from_json(rec)->Some_0;
    let t = crate::tokens::mint(a.username, a.device_id, now, ja, jr, keys)->Ok_0;
    let m1 = rotated(m, rc.access_token_jti, rc.jti, t);
    lemma_rotated(m, rc.access_token_jti, rc.jti, t);
    crate::signer::lemma_verify_signed_access(t.session, keys, later);
    let h = "Bearer "@ + t.access_token;
    assert(h.subrange(0, 7) =~= "Bearer "@);
    assert(h.subrange(7, h.len() as int) =~= t.access_token);
    lemma_session_refresh_disjoint(ja, jr);
    assert(m1.contains_key(session_key(ja)));
}

/// The store after the pair (`ja_old`, `jr_old`) is replaced by `t`.
pub open spec fn rotated(m: StoreModel, ja_old: Seq<char>, jr_old: Seq<char>, t: TokensView) -> StoreModel {
    apply_writes(m, pair_deletes(ja_old, jr_old) + pair_writes(t))
}

proof fn lemma_rotated(m: StoreModel, ja_old: Seq<char>, jr_old: Seq<char>, t: TokensView)
    ensures
        rotated(m, ja_old, jr_old, t) == m.remove(session_key(ja_old)).remove(
            crate::keys::refresh_key(jr_old),
        ).insert(session_key(t.session.jti), crate::claims::refresh_json(t.refresh_session)).insert(
            crate::keys::refresh_key(t.refresh_session.jti),
            crate::claims::access_json(t.session),
        ),
{
    let dels = pair_deletes(ja_old, jr_old);
    let puts = pair_writes(t);
    crate::lifecycle::lemma_apply_concat(m, dels, puts);
    assert(dels =~= seq![dels[0], dels[1]]);
    crate::lifecycle::lemma_apply_two(m, dels[0], dels[1]);
    assert(puts =~= seq![puts[0], puts[1]]);
    crate::lifecycle::lemma_apply_two(apply_writes(m, dels), puts[0], puts[1]);
}

} // verus!
