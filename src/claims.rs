use vstd::prelude::*;
use crate::codec::{
    decimal, lemma_take_lit, lemma_take_lit_sound, lemma_take_num_sound, lemma_take_str_sound, lemma_take_num, lemma_take_str, str_field, take_lit, take_num,
    take_str, escape, push_escaped, push_decimal, strip_literal, take_string, take_number,
};

verus! {

/// Lifetime of an access session, in seconds (6 hours).
pub const EXPIRATION_TIME: u32 = 21600;

/// Lifetime of a refresh session, in seconds (90 days).
pub const REFRESH_EXPIRATION_TIME: u32 = 7776000;

/// The identity that every valid token carries as its issuer.
pub open spec fn issuer_text() -> Seq<char> {
    "doc-storage-authenticator"@
}

pub fn issuer() -> (r: String)
    ensures
        r@ == issuer_text(),
{
    String::from_str("doc-storage-authenticator")
}

/// The two classes of token, each signed with its own key pair.
#[derive(PartialEq, Eq, Structural, Clone, Copy, Debug)]
pub enum TokenType {
    AccessToken,
    RefreshToken,
}

pub open spec fn lifetime_of(t: TokenType) -> u32 {
    match t {
        TokenType::AccessToken => EXPIRATION_TIME,
        TokenType::RefreshToken => REFRESH_EXPIRATION_TIME,
    }
}

impl TokenType {
    pub fn get_expiration(&self) -> (r: u32)
        ensures
            r == lifetime_of(*self),
    {
        match self {
            TokenType::AccessToken => EXPIRATION_TIME,
            TokenType::RefreshToken => REFRESH_EXPIRATION_TIME,
        }
    }
}

/// Claims of an access token: one logged-in device session.
#[derive(Debug)]
pub struct SessionClaims {
    pub username: String,
    pub device_id: String,
    pub exp: u32,
    pub iat: u32,
    pub iss: String,
    pub jti: String,
}

/// Claims of a refresh token, linked to the access session it renews.
#[derive(Debug)]
pub struct SessionRefreshClaims {
    pub access_token_jti: String,
    pub exp: u32,
    pub iat: u32,
    pub iss: String,
    pub jti: String,
}

pub struct AccessView {
    pub username: Seq<char>,
    pub device_id: Seq<char>,
    pub exp: u32,
    pub iat: u32,
    pub iss: Seq<char>,
    pub jti: Seq<char>,
}

pub struct RefreshView {
    pub access_token_jti: Seq<char>,
    pub exp: u32,
    pub iat: u32,
    pub iss: Seq<char>,
    pub jti: Seq<char>,
}

impl View for SessionClaims {
    type V = AccessView;

    open spec fn view(&self) -> AccessView {
        AccessView {
            username: self.username@,
            device_id: self.device_id@,
            exp: self.exp,
            iat: self.iat,
            iss: self.iss@,
            jti: self.jti@,
        }
    }
}

impl View for SessionRefreshClaims {
    type V = RefreshView;

    open spec fn view(&self) -> RefreshView {
        RefreshView {
            access_token_jti: self.access_token_jti@,
            exp: self.exp,
            iat: self.iat,
            iss: self.iss@,
            jti: self.jti@,
        }
    }
}

/// The JSON text of access claims:
/// `{"username":..,"device_id":..,"exp":..,"iat":..,"iss":..,"jti":..}`.
pub open spec fn access_json(c: AccessView) -> Seq<char> {
    "{\"username\":\""@ + (str_field(c.username) + (",\"device_id\":\""@ + (str_field(c.device_id)
        + (",\"exp\":"@ + (decimal(c.exp as nat) + (",\"iat\":"@ + (decimal(c.iat as nat)
        + (",\"iss\":\""@ + (str_field(c.iss) + (",\"jti\":\""@ + (str_field(c.jti)
        + "}"@)))))))))))
}

/// The JSON text of refresh claims:
/// `{"access_token_jti":..,"exp":..,"iat":..,"iss":..,"jti":..}`.
pub open spec fn refresh_json(c: RefreshView) -> Seq<char> {
    "{\"access_token_jti\":\""@ + (str_field(c.access_token_jti) + (",\"exp\":"@ + (decimal(
        c.exp as nat,
    ) + (",\"iat\":"@ + (decimal(c.iat as nat) + (",\"iss\":\""@ + (str_field(c.iss)
        + (",\"jti\":\""@ + (str_field(c.jti) + "}"@)))))))))
}

/// The access claims whose JSON text is `p`, if any.
pub open spec fn access_from_json(p: Seq<char>) -> Option<AccessView> {
    if exists|c: AccessView| access_json(c) == p {
        Some(choose|c: AccessView| access_json(c) == p)
    } else {
        None
    }
}

/// The refresh claims whose JSON text is `p`, if any.
pub open spec fn refresh_from_json(p: Seq<char>) -> Option<RefreshView> {
    if exists|c: RefreshView| refresh_json(c) == p {
        Some(choose|c: RefreshView| refresh_json(c) == p)
    } else {
        None
    }
}

/// Reads access claims from their JSON text, step by step.
spec fn parse_access(t: Seq<char>) -> Option<AccessView> {
    match take_lit(t, "{\"username\":\""@) {
        None => None,
        Some(r0) => match take_str(r0) {
            None => None,
            Some((u, r1)) => match take_lit(r1, ",\"device_id\":\""@) {
                None => None,
                Some(r2) => match take_str(r2) {
                    None => None,
                    Some((d, r3)) => match take_lit(r3, ",\"exp\":"@) {
                        None => None,
                        Some(r4) => match take_num(r4) {
                            None => None,
                            Some((e, r5)) => match take_lit(r5, ",\"iat\":"@) {
                                None => None,
                                Some(r6) => match take_num(r6) {
                                    None => None,
                                    Some((a, r7)) => match take_lit(r7, ",\"iss\":\""@) {
                                        None => None,
                                        Some(r8) => match take_str(r8) {
                                            None => None,
                                            Some((s, r9)) => match take_lit(r9, ",\"jti\":\""@) {
                                                None => None,
                                                Some(r10) => match take_str(r10) {
                                                    None => None,
                                                    Some((j, r11)) => if r11 == "}"@ {
                                                        Some(
                                                            AccessView {
                                                                username: u,
                                                                device_id: d,
                                                                exp: e,
                                                                iat: a,
                                                                iss: s,
                                                                jti: j,
                                                            },
                                                        )
                                                    } else {
                                                        None
                                                    },
                                                },
                                            },
                                        },
                                    },
                                },
                            },
                        },
                    },
                },
            },
        },
    }
}

/// Reads refresh claims from their JSON text, step by step.
spec fn parse_refresh(t: Seq<char>) -> Option<RefreshView> {
    match take_lit(t, "{\"access_token_jti\":\""@) {
        None => None,
        Some(r0) => match take_str(r0) {
            None => None,
            Some((l, r1)) => match take_lit(r1, ",\"exp\":"@) {
                None => None,
                Some(r4) => match take_num(r4) {
                    None => None,
                    Some((e, r5)) => match take_lit(r5, ",\"iat\":"@) {
                        None => None,
                        Some(r6) => match take_num(r6) {
                            None => None,
                            Some((a, r7)) => match take_lit(r7, ",\"iss\":\""@) {
                                None => None,
                                Some(r8) => match take_str(r8) {
                                    None => None,
                                    Some((s, r9)) => match take_lit(r9, ",\"jti\":\""@) {
                                        None => None,
                                        Some(r10) => match take_str(r10) {
                                            None => None,
                                            Some((j, r11)) => if r11 == "}"@ {
                                                Some(
                                                    RefreshView {
                                                        access_token_jti: l,
                                                        exp: e,
                                                        iat: a,
                                                        iss: s,
                                                        jti: j,
                                                    },
                                                )
                                            } else {
                                                None
                                            },
                                        },
                                    },
                                },
                            },
                        },
                    },
                },
            },
        },
    }
}

/// Parsing the JSON text of access claims gives the claims.
proof fn lemma_parse_access_round_trip(c: AccessView)
    ensures
        parse_access(access_json(c)) == Some(c),
{
    reveal_strlit(",\"iat\":");
    reveal_strlit(",\"iss\":\"");
    let t10 = str_field(c.jti) + "}"@;
    let t9 = ",\"jti\":\""@ + t10;
    let t8 = str_field(c.iss) + t9;
    let t7 = ",\"iss\":\""@ + t8;
    let t6 = decimal(c.iat as nat) + t7;
    let t5 = ",\"iat\":"@ + t6;
    let t4 = decimal(c.exp as nat) + t5;
    let t3 = ",\"exp\":"@ + t4;
    let t2 = str_field(c.device_id) + t3;
    let t1 = ",\"device_id\":\""@ + t2;
    let t0 = str_field(c.username) + t1;
    lemma_take_lit("{\"username\":\""@, t0);
    lemma_take_str(c.username, t1);
    lemma_take_lit(",\"device_id\":\""@, t2);
    lemma_take_str(c.device_id, t3);
    lemma_take_lit(",\"exp\":"@, t4);
    assert(t5[0] == ',');
    lemma_take_num(c.exp, t5);
    lemma_take_lit(",\"iat\":"@, t6);
    assert(t7[0] == ',');
    lemma_take_num(c.iat, t7);
    lemma_take_lit(",\"iss\":\""@, t8);
    lemma_take_str(c.iss, t9);
    lemma_take_lit(",\"jti\":\""@, t10);
    lemma_take_str(c.jti, "}"@);
}

/// Parsing the JSON text of refresh claims gives the claims.
proof fn lemma_parse_refresh_round_trip(c: RefreshView)
    ensures
        parse_refresh(refresh_json(c)) == Some(c),
{
    reveal_strlit(",\"iat\":");
    reveal_strlit(",\"iss\":\"");
    let t10 = str_field(c.jti) + "}"@;
    let t9 = ",\"jti\":\""@ + t10;
    let t8 = str_field(c.iss) + t9;
    let t7 = ",\"iss\":\""@ + t8;
    let t6 = decimal(c.iat as nat) + t7;
    let t5 = ",\"iat\":"@ + t6;
    let t4 = decimal(c.exp as nat) + t5;
    let t3 = ",\"exp\":"@ + t4;
    let t0 = str_field(c.access_token_jti) + t3;
    lemma_take_lit("{\"access_token_jti\":\""@, t0);
    lemma_take_str(c.access_token_jti, t3);
    lemma_take_lit(",\"exp\":"@, t4);
    assert(t5[0] == ',');
    lemma_take_num(c.exp, t5);
    lemma_take_lit(",\"iat\":"@, t6);
    assert(t7[0] == ',');
    lemma_take_num(c.iat, t7);
    lemma_take_lit(",\"iss\":\""@, t8);
    lemma_take_str(c.iss, t9);
    lemma_take_lit(",\"jti\":\""@, t10);
    lemma_take_str(c.jti, "}"@);
}


impl SessionClaims {
    /// Claims of a session issued at `now` under the given jti; `None` where
    /// the expiry would not fit the clock's range.
    pub fn issue(username: String, device_id: String, now: u32, jti: String) -> (r: Option<
        SessionClaims,
    >)
        ensures
            match r {
                Some(c) => now + EXPIRATION_TIME <= u32::MAX && c@ == (AccessView {
                    username: username@,
                    device_id: device_id@,
                    exp: (now + EXPIRATION_TIME) as u32,
                    iat: now,
                    iss: issuer_text(),
                    jti: jti@,
                }),
                None => now + EXPIRATION_TIME > u32::MAX,
            },
    {
        if now > u32::MAX - EXPIRATION_TIME {
            return None;
        }
        Some(SessionClaims { username, device_id, exp: now + EXPIRATION_TIME, iat: now, iss: issuer(), jti })
    }

    /// The JSON text of the claims.
    pub fn to_json(&self) -> (r: String)
        ensures
            r@ == access_json(self@),
    {
        let mut out = String::from_str("{\"username\":\"");
        push_escaped(&mut out, self.username.as_str());
        out.append("\"");
        out.append(",\"device_id\":\"");
        push_escaped(&mut out, self.device_id.as_str());
        out.append("\"");
        out.append(",\"exp\":");
        push_decimal(&mut out, self.exp);
        out.append(",\"iat\":");
        push_decimal(&mut out, self.iat);
        out.append(",\"iss\":\"");
        push_escaped(&mut out, self.iss.as_str());
        out.append("\"");
        out.append(",\"jti\":\"");
        push_escaped(&mut out, self.jti.as_str());
        out.append("\"");
        out.append("}");
        proof {
            lemma_access_json_flat(self@);
        }
        out
    }

    /// Reads claims from JSON text: the claims whose text it is, if any.
    pub fn from_json(t: &str) -> (r: Option<SessionClaims>)
        ensures
            match r {
                Some(c) => access_json(c@) == t@ && access_from_json(t@) == Some(c@),
                None => access_from_json(t@) is None,
            },
    {
        proof {
            lemma_parse_access_exact(t@);
            if parse_access(t@) is Some {
                lemma_parse_access_sound(t@);
            }
        }
        let r0 = strip_literal(t, "{\"username\":\"")?;
        let (username, r1) = take_string(r0)?;
        let r2 = strip_literal(r1, ",\"device_id\":\"")?;
        let (device_id, r3) = take_string(r2)?;
        let r4 = strip_literal(r3, ",\"exp\":")?;
        let (exp, r5) = take_number(r4)?;
        let r6 = strip_literal(r5, ",\"iat\":")?;
        let (iat, r7) = take_number(r6)?;
        let r8 = strip_literal(r7, ",\"iss\":\"")?;
        let (iss, r9) = take_string(r8)?;
        let r10 = strip_literal(r9, ",\"jti\":\"")?;
        let (jti, r11) = take_string(r10)?;
        let tail = String::from_str(r11);
        let close = String::from_str("}");
        if tail == close {
            Some(SessionClaims { username, device_id, exp, iat, iss, jti })
        } else {
            None
        }
    }
}

impl SessionRefreshClaims {
    /// Claims of a refresh session issued at `now`, linked to the access
    /// session `access_token_jti`; `None` where the expiry would not fit.
    pub fn issue(access_token_jti: String, now: u32, jti: String) -> (r: Option<SessionRefreshClaims>)
        ensures
            match r {
                Some(c) => now + REFRESH_EXPIRATION_TIME <= u32::MAX && c@ == (RefreshView {
                    access_token_jti: access_token_jti@,
                    exp: (now + REFRESH_EXPIRATION_TIME) as u32,
                    iat: now,
                    iss: issuer_text(),
                    jti: jti@,
                }),
                None => now + REFRESH_EXPIRATION_TIME > u32::MAX,
            },
    {
        if now > u32::MAX - REFRESH_EXPIRATION_TIME {
            return None;
        }
        Some(SessionRefreshClaims { access_token_jti, exp: now + REFRESH_EXPIRATION_TIME, iat: now, iss: issuer(), jti })
    }

    pub fn to_json(&self) -> (r: String)
        ensures
            r@ == refresh_json(self@),
    {
        let mut out = String::from_str("{\"access_token_jti\":\"");
        push_escaped(&mut out, self.access_token_jti.as_str());
        out.append("\"");
        out.append(",\"exp\":");
        push_decimal(&mut out, self.exp);
        out.append(",\"iat\":");
        push_decimal(&mut out, self.iat);
        out.append(",\"iss\":\"");
        push_escaped(&mut out, self.iss.as_str());
        out.append("\"");
        out.append(",\"jti\":\"");
        push_escaped(&mut out, self.jti.as_str());
        out.append("\"");
        out.append("}");
        proof {
            lemma_refresh_json_flat(self@);
        }
        out
    }

    /// Reads claims from JSON text: the claims whose text it is, if any.
    pub fn from_json(t: &str) -> (r: Option<SessionRefreshClaims>)
        ensures
            match r {
                Some(c) => refresh_json(c@) == t@ && refresh_from_json(t@) == Some(c@),
                None => refresh_from_json(t@) is None,
            },
    {
        proof {
            lemma_parse_refresh_exact(t@);
            if parse_refresh(t@) is Some {
                lemma_parse_refresh_sound(t@);
            }
        }
        let r0 = strip_literal(t, "{\"access_token_jti\":\"")?;
        let (access_token_jti, r1) = take_string(r0)?;
        let r4 = strip_literal(r1, ",\"exp\":")?;
        let (exp, r5) = take_number(r4)?;
        let r6 = strip_literal(r5, ",\"iat\":")?;
        let (iat, r7) = take_number(r6)?;
        let r8 = strip_literal(r7, ",\"iss\":\"")?;
        let (iss, r9) = take_string(r8)?;
        let r10 = strip_literal(r9, ",\"jti\":\"")?;
        let (jti, r11) = take_string(r10)?;
        let tail = String::from_str(r11);
        let close = String::from_str("}");
        if tail == close {
            Some(SessionRefreshClaims { access_token_jti, exp, iat, iss, jti })
        } else {
            None
        }
    }
}


/// The JSON text of access claims, piece after piece as it is written.
proof fn lemma_access_json_flat(c: AccessView)
    ensures
        access_json(c) == "{\"username\":\""@ + escape(c.username) + "\""@ + ",\"device_id\":\""@
            + escape(c.device_id) + "\""@ + ",\"exp\":"@ + decimal(c.exp as nat) + ",\"iat\":"@
            + decimal(c.iat as nat) + ",\"iss\":\""@ + escape(c.iss) + "\""@ + ",\"jti\":\""@
            + escape(c.jti) + "\""@ + "}"@,
{
    reveal_strlit("\"");
    assert(access_json(c) =~= "{\"username\":\""@ + escape(c.username) + "\""@ + ",\"device_id\":\""@
        + escape(c.device_id) + "\""@ + ",\"exp\":"@ + decimal(c.exp as nat) + ",\"iat\":"@
        + decimal(c.iat as nat) + ",\"iss\":\""@ + escape(c.iss) + "\""@ + ",\"jti\":\""@
        + escape(c.jti) + "\""@ + "}"@);
}

/// The JSON text of refresh claims, piece after piece as it is written.
proof fn lemma_refresh_json_flat(c: RefreshView)
    ensures
        refresh_json(c) == "{\"access_token_jti\":\""@ + escape(c.access_token_jti) + "\""@
            + ",\"exp\":"@ + decimal(c.exp as nat) + ",\"iat\":"@ + decimal(c.iat as nat)
            + ",\"iss\":\""@ + escape(c.iss) + "\""@ + ",\"jti\":\""@ + escape(c.jti) + "\""@
            + "}"@,
{
    reveal_strlit("\"");
    assert(refresh_json(c) =~= "{\"access_token_jti\":\""@ + escape(c.access_token_jti) + "\""@
        + ",\"exp\":"@ + decimal(c.exp as nat) + ",\"iat\":"@ + decimal(c.iat as nat)
        + ",\"iss\":\""@ + escape(c.iss) + "\""@ + ",\"jti\":\""@ + escape(c.jti) + "\""@
        + "}"@);
}


/// What the parser accepts is the JSON text of the claims it gives.
proof fn lemma_parse_access_sound(t: Seq<char>)
    requires
        parse_access(t) is Some,
    ensures
        access_json(parse_access(t)->Some_0) == t,
{
    let r0 = take_lit(t, "{\"username\":\""@)->Some_0;
    lemma_take_lit_sound(t, "{\"username\":\""@);
    let (u, r1) = take_str(r0)->Some_0;
    lemma_take_str_sound(r0);
    let r2 = take_lit(r1, ",\"device_id\":\""@)->Some_0;
    lemma_take_lit_sound(r1, ",\"device_id\":\""@);
    let (d, r3) = take_str(r2)->Some_0;
    lemma_take_str_sound(r2);
    let r4 = take_lit(r3, ",\"exp\":"@)->Some_0;
    lemma_take_lit_sound(r3, ",\"exp\":"@);
    let (e, r5) = take_num(r4)->Some_0;
    lemma_take_num_sound(r4);
    let r6 = take_lit(r5, ",\"iat\":"@)->Some_0;
    lemma_take_lit_sound(r5, ",\"iat\":"@);
    let (a, r7) = take_num(r6)->Some_0;
    lemma_take_num_sound(r6);
    let r8 = take_lit(r7, ",\"iss\":\""@)->Some_0;
    lemma_take_lit_sound(r7, ",\"iss\":\""@);
    let (i, r9) = take_str(r8)->Some_0;
    lemma_take_str_sound(r8);
    let r10 = take_lit(r9, ",\"jti\":\""@)->Some_0;
    lemma_take_lit_sound(r9, ",\"jti\":\""@);
    let (j, r11) = take_str(r10)->Some_0;
    lemma_take_str_sound(r10);
}

/// What the parser accepts is the JSON text of the claims it gives.
proof fn lemma_parse_refresh_sound(t: Seq<char>)
    requires
        parse_refresh(t) is Some,
    ensures
        refresh_json(parse_refresh(t)->Some_0) == t,
{
    let r0 = take_lit(t, "{\"access_token_jti\":\""@)->Some_0;
    lemma_take_lit_sound(t, "{\"access_token_jti\":\""@);
    let (l, r1) = take_str(r0)->Some_0;
    lemma_take_str_sound(r0);
    let r4 = take_lit(r1, ",\"exp\":"@)->Some_0;
    lemma_take_lit_sound(r1, ",\"exp\":"@);
    let (e, r5) = take_num(r4)->Some_0;
    lemma_take_num_sound(r4);
    let r6 = take_lit(r5, ",\"iat\":"@)->Some_0;
    lemma_take_lit_sound(r5, ",\"iat\":"@);
    let (a, r7) = take_num(r6)->Some_0;
    lemma_take_num_sound(r6);
    let r8 = take_lit(r7, ",\"iss\":\""@)->Some_0;
    lemma_take_lit_sound(r7, ",\"iss\":\""@);
    let (i, r9) = take_str(r8)->Some_0;
    lemma_take_str_sound(r8);
    let r10 = take_lit(r9, ",\"jti\":\""@)->Some_0;
    lemma_take_lit_sound(r9, ",\"jti\":\""@);
    let (j, r11) = take_str(r10)->Some_0;
    lemma_take_str_sound(r10);
}

proof fn lemma_parse_access_exact(t: Seq<char>)
    ensures
        parse_access(t) == access_from_json(t),
{
    if parse_access(t) is Some {
        lemma_parse_access_sound(t);
        let c = parse_access(t)->Some_0;
        assert(access_json(c) == t);
        let d = choose|d: AccessView| access_json(d) == t;
        lemma_parse_access_round_trip(d);
    } else if exists|c: AccessView| access_json(c) == t {
        let c = choose|c: AccessView| access_json(c) == t;
        lemma_parse_access_round_trip(c);
    }
}

proof fn lemma_parse_refresh_exact(t: Seq<char>)
    ensures
        parse_refresh(t) == refresh_from_json(t),
{
    if parse_refresh(t) is Some {
        lemma_parse_refresh_sound(t);
        let c = parse_refresh(t)->Some_0;
        assert(refresh_json(c) == t);
        let d = choose|d: RefreshView| refresh_json(d) == t;
        lemma_parse_refresh_round_trip(d);
    } else if exists|c: RefreshView| refresh_json(c) == t {
        let c = choose|c: RefreshView| refresh_json(c) == t;
        lemma_parse_refresh_round_trip(c);
    }
}

/// The JSON text of access claims determines them: reading it back gives
/// the claims.
pub proof fn lemma_access_json_round_trip(c: AccessView)
    ensures
        access_from_json(access_json(c)) == Some(c),
{
    lemma_parse_access_round_trip(c);
    lemma_parse_access_exact(access_json(c));
}

/// The JSON text of refresh claims determines them: reading it back gives
/// the claims.
pub proof fn lemma_refresh_json_round_trip(c: RefreshView)
    ensures
        refresh_from_json(refresh_json(c)) == Some(c),
{
    lemma_parse_refresh_round_trip(c);
    lemma_parse_refresh_exact(refresh_json(c));
}

} // verus!
