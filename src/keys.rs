use vstd::prelude::*;

verus! {

/// A key of the session store. Every key lives under one base namespace.
pub enum RedisKey {
    Base,
    Account(String),
    Session(String),
    SessionRefresh(String),
    Other(String),
}

pub open spec fn base_text() -> Seq<char> {
    "doc_storage"@
}

/// The text under which a key is stored.
pub open spec fn key_text(k: RedisKey) -> Seq<char> {
    match k {
        RedisKey::Base => base_text(),
        RedisKey::Account(u) => "doc_storage:account:"@ + u@,
        RedisKey::Session(j) => "doc_storage:session:"@ + j@,
        RedisKey::SessionRefresh(j) => "doc_storage:session:refresh:"@ + j@,
        RedisKey::Other(o) => "doc_storage:"@ + o@,
    }
}

/// Store key of the access session with the given jti.
pub open spec fn session_key(jti: Seq<char>) -> Seq<char> {
    "doc_storage:session:"@ + jti
}

/// Store key of the refresh session with the given jti.
pub open spec fn refresh_key(jti: Seq<char>) -> Seq<char> {
    "doc_storage:session:refresh:"@ + jti
}

impl RedisKey {
    pub fn to_string(&self) -> (r: String)
        ensures
            r@ == key_text(*self),
    {
        match self {
            RedisKey::Base => String::from_str("doc_storage"),
            RedisKey::Account(u) => {
                let mut s = String::from_str("doc_storage:account:");
                s.append(u.as_str());
                s
            },
            RedisKey::Session(j) => {
                let mut s = String::from_str("doc_storage:session:");
                s.append(j.as_str());
                s
            },
            RedisKey::SessionRefresh(j) => {
                let mut s = String::from_str("doc_storage:session:refresh:");
                s.append(j.as_str());
                s
            },
            RedisKey::Other(o) => {
                let mut s = String::from_str("doc_storage:");
                s.append(o.as_str());
                s
            },
        }
    }
}

/// Access-session keys of distinct jtis are distinct.
pub proof fn lemma_session_key_injective(a: Seq<char>, b: Seq<char>)
    ensures
        session_key(a) == session_key(b) ==> a == b,
        refresh_key(a) == refresh_key(b) ==> a == b,
{
    let p = "doc_storage:session:"@;
    let q = "doc_storage:session:refresh:"@;
    if session_key(a) == session_key(b) {
        assert(a =~= session_key(a).subrange(p.len() as int, session_key(a).len() as int));
        assert(b =~= session_key(b).subrange(p.len() as int, session_key(b).len() as int));
    }
    if refresh_key(a) == refresh_key(b) {
        assert(a =~= refresh_key(a).subrange(q.len() as int, refresh_key(a).len() as int));
        assert(b =~= refresh_key(b).subrange(q.len() as int, refresh_key(b).len() as int));
    }
}

/// A jti without ':' never names an access key that collides with a refresh key.
pub proof fn lemma_session_refresh_disjoint(a: Seq<char>, b: Seq<char>)
    requires
        !a.contains(':'),
    ensures
        session_key(a) != refresh_key(b),
{
    reveal_strlit("doc_storage:session:");
    reveal_strlit("doc_storage:session:refresh:");
    let p = "doc_storage:session:"@;
    if session_key(a) == refresh_key(b) {
        // position of the ':' after "refresh" falls inside `a`
        let i = p.len() + 7;
        assert(session_key(a).len() == refresh_key(b).len());
        assert(a.len() == b.len() + 8);
        assert(refresh_key(b)[i as int] == ':');
        assert(session_key(a)[i as int] == a[7]);
        assert(a[7] == ':');
        assert(a.contains(':'));
    }
}


/// A session identifier that can name store keys: not empty, without ':'.
pub open spec fn jti_ok(j: Seq<char>) -> bool {
    j.len() > 0 && !j.contains(':')
}

pub fn is_valid_jti(j: &str) -> (r: bool)
    ensures
        r == jti_ok(j@),
{
    let n = j.unicode_len();
    if n == 0 {
        return false;
    }
    let mut i: usize = 0;
    while i < n
        invariant
            n == j@.len(),
            i <= n,
            forall|k: int| 0 <= k < i ==> j@[k] != ':',
        decreases n - i,
    {
        if j.get_char(i) == ':' {
            return false;
        }
        i = i + 1;
    }
    true
}

} // verus!
