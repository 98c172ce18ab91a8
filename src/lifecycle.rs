use vstd::prelude::*;
use crate::claims::{
    access_json, access_from_json, refresh_json, AccessView,
    RefreshView, SessionClaims, SessionRefreshClaims,
};
use crate::error::{kind_of, ErrorKind, ServiceError};
use crate::keys::{key_text, lemma_session_key_injective, lemma_session_refresh_disjoint, refresh_key, session_key, RedisKey};
use crate::password::{password_verdict, verify_password};
use crate::signer::{decode_refresh_token, refresh_verdict, token_failure, SigningKeys};
use crate::tokens::{create_tokens, mint, AuthenticationTokens, TokensView};

verus! {

// The session store is an outside service. Each operation here decides, from
// what the store answered, which writes the caller performs and in what
// order; the store itself is modelled as a map from key text to record text.
// Records are cross-linked: under an access session's key stands the refresh
// claims of its pair, and under the refresh session's key the access claims.

/// The store, as this core sees it.
pub type StoreModel = Map<Seq<char>, Seq<char>>;

/// A write that the caller performs on the store.
pub enum StoreCommand {
    Put(String, String),
    Delete(String),
}

pub enum Write {
    Put(Seq<char>, Seq<char>),
    Remove(Seq<char>),
}

impl View for StoreCommand {
    type V = Write;

    open spec fn view(&self) -> Write {
        match self {
            StoreCommand::Put(k, v) => Write::Put(k@, v@),
            StoreCommand::Delete(k) => Write::Remove(k@),
        }
    }
}

pub open spec fn writes_of(v: Seq<StoreCommand>) -> Seq<Write> {
    v.map_values(|c: StoreCommand| c@)
}

pub open spec fn apply_write(m: StoreModel, w: Write) -> StoreModel {
    match w {
        Write::Put(k, v) => m.insert(k, v),
        Write::Remove(k) => m.remove(k),
    }
}

/// The store after the writes, in order.
pub open spec fn apply_writes(m: StoreModel, ws: Seq<Write>) -> StoreModel
    decreases ws.len(),
{
    if ws.len() == 0 {
        m
    } else {
        apply_writes(apply_write(m, ws[0]), ws.drop_first())
    }
}

/// What the store answers to a read of `k`.
pub open spec fn lookup(m: StoreModel, k: Seq<char>) -> Option<Seq<char>> {
    if m.contains_key(k) {
        Some(m[k])
    } else {
        None
    }
}

/// The writes that persist a freshly minted pair.
pub open spec fn pair_writes(t: TokensView) -> Seq<Write> {
    seq![
        Write::Put(session_key(t.session.jti), refresh_json(t.refresh_session)),
        Write::Put(refresh_key(t.refresh_session.jti), access_json(t.session)),
    ]
}

/// The writes that delete the pair of access jti `ja` and refresh jti `jr`.
pub open spec fn pair_deletes(ja: Seq<char>, jr: Seq<char>) -> Seq<Write> {
    seq![Write::Remove(session_key(ja)), Write::Remove(refresh_key(jr))]
}

impl AuthenticationTokens {
    /// The writes that persist this pair, each record under its partner's key.
    pub fn save(&self) -> (r: Vec<StoreCommand>)
        ensures
            writes_of(r@) == pair_writes(self@),
    {
        let access_text = self.session.to_json();
        let refresh_text = self.refresh_session.to_json();
        let access_key = RedisKey::Session(self.session.jti.clone()).to_string();
        let refresh_key_text = RedisKey::SessionRefresh(self.refresh_session.jti.clone()).to_string();
        let mut v: Vec<StoreCommand> = Vec::new();
        v.push(StoreCommand::Put(access_key, refresh_text));
        v.push(StoreCommand::Put(refresh_key_text, access_text));
        proof {
            assert(writes_of(v@) =~= pair_writes(self@));
        }
        v
    }
}

pub struct LoginPayload {
    pub username: String,
    pub password: String,
    pub device_id: String,
}

pub struct RefreshPayload {
    pub refresh_token: String,
}

pub struct RegistrationPayload {
    pub username: String,
    pub password: String,
    pub device_id: String,
}

/// What a login decides, given the stored password hash of the account
/// (`None` where there is no such account).
pub open spec fn login_decision(
    account_hash: Option<Seq<char>>,
    username: Seq<char>,
    password: Seq<char>,
    device: Seq<char>,
    now: u32,
    ja: Seq<char>,
    jr: Seq<char>,
    keys: SigningKeys,
) -> (Seq<Write>, Result<TokensView, ErrorKind>) {
    match account_hash {
        None => (seq![], Err(ErrorKind::NotFound)),
        Some(h) => match password_verdict(password, h) {
            None => (seq![], Err(ErrorKind::InternalServerError)),
            Some(false) => (seq![], Err(ErrorKind::BadRequest)),
            Some(true) => match mint(username, device, now, ja, jr, keys) {
                Err(k) => (seq![], Err(k)),
                Ok(t) => (pair_writes(t), Ok(t)),
            },
        },
    }
}

/// A login against the store `m`: the store after it, and its outcome.
pub open spec fn login_in(
    m: StoreModel,
    username: Seq<char>,
    password: Seq<char>,
    device: Seq<char>,
    account_hash: Option<Seq<char>>,
    now: u32,
    ja: Seq<char>,
    jr: Seq<char>,
    keys: SigningKeys,
) -> (StoreModel, Result<TokensView, ErrorKind>) {
    let d = login_decision(account_hash, username, password, device, now, ja, jr, keys);
    (apply_writes(m, d.0), d.1)
}

pub open spec fn opt_view(o: Option<String>) -> Option<Seq<char>> {
    match o {
        Some(s) => Some(s@),
        None => None,
    }
}

/// Logs a user in: checks the password against the account's stored hash
/// (`account_hash`, `None` where the account does not exist), then mints a
/// linked pair at `now` under the fresh jtis. Returns the writes that persist
/// the pair, and the outcome.
pub fn login_user(
    payload: LoginPayload,
    account_hash: Option<String>,
    now: u32,
    access_jti: String,
    refresh_jti: String,
    keys: &SigningKeys,
) -> (r: (Vec<StoreCommand>, Result<AuthenticationTokens, ServiceError>))
    ensures
        ({
            let d = login_decision(
                opt_view(account_hash),
                payload.username@,
                payload.password@,
                payload.device_id@,
                now,
                access_jti@,
                refresh_jti@,
                *keys,
            );
            &&& writes_of(r.0@) == d.0
            &&& match r.1 {
                Ok(t) => d.1 == Ok::<TokensView, ErrorKind>(t@),
                Err(e) => d.1 == Err::<TokensView, ErrorKind>(kind_of(e)),
            }
            &&& (opt_view(account_hash) matches Some(h) && password_verdict(payload.password@, h)
                == Some(false)) ==> (r.1 matches Err(e) && e is BadRequest && e->BadRequest_0@
                == "Invalid password"@)
            &&& account_hash is None ==> (r.1 matches Err(e) && e is NotFound && e->NotFound_0@
                == "An account with that username does not exist."@)
        }),
{
    let none: Vec<StoreCommand> = Vec::new();
    proof {
        assert(writes_of(none@) =~= Seq::<Write>::empty());
    }
    let hash = match account_hash {
        Some(h) => h,
        None => return (
            none,
            Err(ServiceError::NotFound(String::from_str("An account with that username does not exist."))),
        ),
    };
    match verify_password(payload.password.as_str(), hash.as_str()) {
        None => return (none, Err(ServiceError::InternalServerError(String::from_str("stored password hash is unreadable")))),
        Some(false) => return (none, Err(ServiceError::BadRequest(String::from_str("Invalid password")))),
        Some(true) => {},
    }
    let tokens = match create_tokens(payload.username, payload.device_id, now, access_jti, refresh_jti, keys) {
        Ok(t) => t,
        Err(e) => return (none, Err(e)),
    };
    let writes = tokens.save();
    (writes, Ok(tokens))
}

/// What a refresh decides once the presented token verified as `rc`, given
/// the record under its refresh key and whether its access key exists.
pub open spec fn refresh_decision(
    rc: RefreshView,
    record: Option<Seq<char>>,
    access_exists: bool,
    now: u32,
    ja: Seq<char>,
    jr: Seq<char>,
    keys: SigningKeys,
) -> (Seq<Write>, Result<TokensView, ErrorKind>) {
    match record {
        None => (seq![], Err(ErrorKind::InvalidToken)),
        Some(rec) => if !access_exists {
            (seq![], Err(ErrorKind::InvalidToken))
        } else {
            match access_from_json(rec) {
                None => (seq![], Err(ErrorKind::InternalServerError)),
                Some(a) => if a.jti != rc.access_token_jti {
                    (seq![], Err(ErrorKind::InvalidToken))
                } else if ja == rc.access_token_jti || jr == rc.jti {
                    (seq![], Err(ErrorKind::InternalServerError))
                } else {
                    let dels = pair_deletes(rc.access_token_jti, rc.jti);
                    match mint(a.username, a.device_id, now, ja, jr, keys) {
                        Err(k) => (dels, Err(k)),
                        Ok(t) => (dels + pair_writes(t), Ok(t)),
                    }
                },
            }
        },
    }
}

/// A refresh against the store `m`: the store after it, and its outcome.
pub open spec fn refresh_in(
    m: StoreModel,
    token: Seq<char>,
    now: u32,
    ja: Seq<char>,
    jr: Seq<char>,
    keys: SigningKeys,
) -> (StoreModel, Result<TokensView, ErrorKind>) {
    match refresh_verdict(token, now, keys) {
        Err(e) => (m, Err(kind_of(token_failure(e)))),
        Ok(rc) => {
            let d = refresh_decision(
                rc,
                lookup(m, refresh_key(rc.jti)),
                m.contains_key(session_key(rc.access_token_jti)),
                now,
                ja,
                jr,
                keys,
            );
            (apply_writes(m, d.0), d.1)
        },
    }
}

/// First step of a refresh: verifies the presented refresh token at `now`.
pub fn refresh_begin(payload: &RefreshPayload, now: u32, keys: &SigningKeys) -> (r: Result<
    SessionRefreshClaims,
    ServiceError,
>)
    ensures
        match r {
            Ok(c) => refresh_verdict(payload.refresh_token@, now, *keys) == Ok::<RefreshView, crate::signer::TokenError>(c@),
            Err(e) => refresh_verdict(payload.refresh_token@, now, *keys) matches Err(te) && kind_of(e)
                == kind_of(token_failure(te)),
        },
{
    match decode_refresh_token(payload.refresh_token.as_str(), now, keys) {
        Ok(c) => Ok(c),
        Err(te) => Err(te.to_service_error()),
    }
}

/// The keys that a refresh reads: the refresh session's own key, whose record
/// holds the access claims, and the linked access session's key.
pub fn refresh_lookup_keys(claims: &SessionRefreshClaims) -> (r: (RedisKey, RedisKey))
    ensures
        key_text(r.0) == refresh_key(claims.jti@),
        key_text(r.1) == session_key(claims.access_token_jti@),
{
    (RedisKey::SessionRefresh(claims.jti.clone()), RedisKey::Session(claims.access_token_jti.clone()))
}

/// Second step of a refresh: given the record under the refresh key and
/// whether the access key exists, deletes the old pair and mints a new one at
/// `now` under the fresh jtis.
pub fn refresh_finish(
    claims: &SessionRefreshClaims,
    record: Option<String>,
    access_exists: bool,
    now: u32,
    access_jti: String,
    refresh_jti: String,
    keys: &SigningKeys,
) -> (r: (Vec<StoreCommand>, Result<AuthenticationTokens, ServiceError>))
    ensures
        ({
            let d = refresh_decision(
                claims@,
                opt_view(record),
                access_exists,
                now,
                access_jti@,
                refresh_jti@,
                *keys,
            );
            &&& writes_of(r.0@) == d.0
            &&& match r.1 {
                Ok(t) => d.1 == Ok::<TokensView, ErrorKind>(t@),
                Err(e) => d.1 == Err::<TokensView, ErrorKind>(kind_of(e)),
            }
        }),
{
    let mut cmds: Vec<StoreCommand> = Vec::new();
    proof {
        assert(writes_of(cmds@) =~= Seq::<Write>::empty());
    }
    let rec = match record {
        Some(t) => t,
        None => return (cmds, Err(ServiceError::InvalidToken)),
    };
    if !access_exists {
        return (cmds, Err(ServiceError::InvalidToken));
    }
    let access = match SessionClaims::from_json(rec.as_str()) {
        Some(a) => a,
        None => return (cmds, Err(ServiceError::InternalServerError(String::from_str("failed to deserialize a session")))),
    };
    if access.jti != claims.access_token_jti {
        return (cmds, Err(ServiceError::InvalidToken));
    }
    if access_jti == claims.access_token_jti || refresh_jti == claims.jti {
        return (cmds, Err(ServiceError::InternalServerError(String::from_str("session identifiers collide"))));
    }
    let (refresh_session_key, access_session_key) = refresh_lookup_keys(claims);
    cmds.push(StoreCommand::Delete(access_session_key.to_string()));
    cmds.push(StoreCommand::Delete(refresh_session_key.to_string()));
    proof {
        assert(writes_of(cmds@) =~= pair_deletes(claims@.access_token_jti, claims@.jti));
    }
    let tokens = match create_tokens(access.username, access.device_id, now, access_jti, refresh_jti, keys) {
        Ok(t) => t,
        Err(e) => return (cmds, Err(e)),
    };
    let mut writes = tokens.save();
    cmds.append(&mut writes);
    proof {
        assert(writes_of(cmds@) =~= pair_deletes(claims@.access_token_jti, claims@.jti) + pair_writes(tokens@));
    }
    (cmds, Ok(tokens))
}

/// What a logout decides, given the record under the session's access key.
pub open spec fn logout_decision(c: AccessView, record: Option<Seq<char>>) -> (Seq<Write>, Result<(), ErrorKind>) {
    match record {
        None => (seq![], Err(ErrorKind::InvalidToken)),
        Some(rec) => match crate::claims::refresh_from_json(rec) {
            None => (seq![], Err(ErrorKind::InternalServerError)),
            Some(rr) => (pair_deletes(c.jti, rr.jti), Ok(())),
        },
    }
}

/// A logout against the store `m`: the store after it, and its outcome.
pub open spec fn logout_in(m: StoreModel, c: AccessView) -> (StoreModel, Result<(), ErrorKind>) {
    let d = logout_decision(c, lookup(m, session_key(c.jti)));
    (apply_writes(m, d.0), d.1)
}

/// The key that a logout reads: the access session's own key.
pub fn logout_lookup_key(claims: &SessionClaims) -> (r: RedisKey)
    ensures
        key_text(r) == session_key(claims.jti@),
{
    RedisKey::Session(claims.jti.clone())
}

/// Logs a session out, given the record under its access key (which holds
/// the linked refresh claims): deletes the access and the refresh record.
pub fn logout_user(claims: &SessionClaims, record: Option<String>) -> (r: (Vec<StoreCommand>, Result<(), ServiceError>))
    ensures
        ({
            let d = logout_decision(claims@, opt_view(record));
            &&& writes_of(r.0@) == d.0
            &&& match r.1 {
                Ok(_) => d.1 is Ok,
                Err(e) => d.1 == Err::<(), ErrorKind>(kind_of(e)),
            }
        }),
{
    let mut cmds: Vec<StoreCommand> = Vec::new();
    proof {
        assert(writes_of(cmds@) =~= Seq::<Write>::empty());
    }
    let rec = match record {
        Some(t) => t,
        None => return (cmds, Err(ServiceError::InvalidToken)),
    };
    let linked = match SessionRefreshClaims::from_json(rec.as_str()) {
        Some(r) => r,
        None => return (cmds, Err(ServiceError::InternalServerError(String::from_str("failed to deserialize a session")))),
    };
    cmds.push(StoreCommand::Delete(logout_lookup_key(claims).to_string()));
    cmds.push(StoreCommand::Delete(RedisKey::SessionRefresh(linked.jti).to_string()));
    proof {
        assert(writes_of(cmds@) =~= pair_deletes(claims@.jti, linked@.jti));
    }
    (cmds, Ok(()))
}


pub proof fn lemma_apply_concat(m: StoreModel, a: Seq<Write>, b: Seq<Write>)
    ensures
        apply_writes(m, a + b) == apply_writes(apply_writes(m, a), b),
    decreases a.len(),
{
    if a.len() == 0 {
        assert(a + b =~= b);
    } else {
        assert((a + b).drop_first() =~= a.drop_first() + b);
        lemma_apply_concat(apply_write(m, a[0]), a.drop_first(), b);
    }
}

pub proof fn lemma_apply_two(m: StoreModel, w1: Write, w2: Write)
    ensures
        apply_writes(m, seq![w1, w2]) == apply_write(apply_write(m, w1), w2),
{
    let s = seq![w1, w2];
    assert(s.drop_first() =~= seq![w2]);
    assert(seq![w2].drop_first() =~= Seq::<Write>::empty());
    assert(apply_writes(apply_write(m, w1), seq![w2]) == apply_writes(apply_write(apply_write(m, w1), w2), Seq::<Write>::empty()));
}

/// A successful login mints an access and a refresh session with distinct
/// jtis, and the refresh claims name the access session's jti.
pub proof fn law_login_links_pair(
    m: StoreModel,
    username: Seq<char>,
    password: Seq<char>,
    device: Seq<char>,
    account_hash: Option<Seq<char>>,
    now: u32,
    ja: Seq<char>,
    jr: Seq<char>,
    keys: SigningKeys,
)
    requires
        login_in(m, username, password, device, account_hash, now, ja, jr, keys).1 is Ok,
    ensures
        ({
            let t = login_in(m, username, password, device, account_hash, now, ja, jr, keys).1->Ok_0;
            &&& t.session.jti != t.refresh_session.jti
            &&& t.refresh_session.access_token_jti == t.session.jti
        }),
{
    crate::tokens::lemma_minted_pair_linked(username, device, now, ja, jr, keys);
}

/// Logging the same session out a second time fails with `InvalidToken`: the
/// first logout removed its record.
pub proof fn law_logout_twice(m: StoreModel, c: AccessView)
    requires
        logout_in(m, c).1 is Ok,
    ensures
        logout_in(logout_in(m, c).0, c).1 == Err::<(), ErrorKind>(ErrorKind::InvalidToken),
{
    let rr = crate::claims::refresh_from_json(lookup(m, session_key(c.jti))->Some_0)->Some_0;
    lemma_apply_two(m, Write::Remove(session_key(c.jti)), Write::Remove(refresh_key(rr.jti)));
    let m1 = logout_in(m, c).0;
    assert(!m1.contains_key(session_key(c.jti)));
}

/// A refresh token can be used once: after a successful refresh, presenting
/// the same token again, at any time at which it still verifies, fails with
/// `InvalidToken`.
pub proof fn law_refresh_single_use(
    m: StoreModel,
    token: Seq<char>,
    now: u32,
    ja: Seq<char>,
    jr: Seq<char>,
    later: u32,
    ja2: Seq<char>,
    jr2: Seq<char>,
    keys: SigningKeys,
)
    requires
        refresh_in(m, token, now, ja, jr, keys).1 is Ok,
        refresh_verdict(token, later, keys) is Ok,
    ensures
        refresh_in(refresh_in(m, token, now, ja, jr, keys).0, token, later, ja2, jr2, keys).1
            == Err::<TokensView, ErrorKind>(ErrorKind::InvalidToken),
{
    let rc = refresh_verdict(token, now, keys)->Ok_0;
    assert(refresh_verdict(token, later, keys)->Ok_0 == rc);
    let rec = lookup(m, refresh_key(rc.jti))->Some_0;
    let a = access_from_json(rec)->Some_0;
    let t = mint(a.username, a.device_id, now, ja, jr, keys)->Ok_0;
    let dels = pair_deletes(rc.access_token_jti, rc.jti);
    let puts = pair_writes(t);
    lemma_apply_concat(m, dels, puts);
    lemma_apply_two(m, dels[0], dels[1]);
    assert(dels =~= seq![dels[0], dels[1]]);
    let m0 = apply_writes(m, dels);
    assert(puts =~= seq![puts[0], puts[1]]);
    lemma_apply_two(m0, puts[0], puts[1]);
    let m1 = refresh_in(m, token, now, ja, jr, keys).0;
    assert(m1 == m0.insert(session_key(ja), refresh_json(t.refresh_session)).insert(refresh_key(jr), access_json(t.session)));
    assert(!m0.contains_key(refresh_key(rc.jti)));
    lemma_session_refresh_disjoint(ja, rc.jti);
    lemma_session_key_injective(jr, rc.jti);
    assert(!m1.contains_key(refresh_key(rc.jti)));
}

} // verus!
