//! Logins by hand: sessions that wait for a callback, and the exchange of its code for tokens.
use vstd::prelude::*;
use vstd::string::StringExecFns;
use vstd::utf8::encode_utf8;

use crate::auth::token_urlsafe;
use crate::codec::{base64url_encode, base64url_text};
use crate::digest::{full_uuid, grouped, hyphenated_uuid, is_hex, sha256, sha256_digest};
use crate::refresh::{body_value, failure_reason, head, parse_body};
use crate::sorting::pairs_view;
use crate::text::{
    begins, cat, cat3, cut_once, decimal, decimal_text, prefix_chars, same, split_once, starts_with,
    trim, trimmed,
};
use crate::urlcode::{query_text, urlencode};
use crate::value::{empty_object, or_else, Json, JsonView};

verus! {

broadcast use crate::value::group_json;

/// How long a session waits, in milliseconds.
pub const SESSION_TTL_MILLIS: i64 = 600_000;

/// How many sessions are kept.
pub const MAX_SESSIONS: usize = 64;

/// Why a login failed.
pub struct OAuthLoginError(pub String);

/// A refusal with a message.
pub fn err(msg: &str) -> (r: OAuthLoginError)
    ensures
        r.0@ == msg@,
{
    OAuthLoginError(msg.to_owned())
}

/// The platform that logins go to.
pub struct Platform {
    pub auth_base: String,
    pub client_id: String,
    pub audience: String,
    pub redirect_uri: String,
    pub auth0_client: String,
}

/// A session that waits for its callback.
pub struct Session {
    pub id: String,
    pub code_verifier: String,
    pub state: String,
    /// When it began, in milliseconds since the epoch.
    pub created_at: i64,
    pub redirect_uri: String,
}

impl Session {
    fn duplicate(&self) -> (r: Session)
        ensures
            r == *self,
    {
        Session {
            id: self.id.clone(),
            code_verifier: self.code_verifier.clone(),
            state: self.state.clone(),
            created_at: self.created_at,
            redirect_uri: self.redirect_uri.clone(),
        }
    }
}

/// What is drawn at random for a login.
pub struct Secrets {
    pub verifier: String,
    pub challenge: String,
    pub nonce: String,
    pub device_id: String,
    pub session_id: String,
    /// What follows the session's id in the state.
    pub state_tail: String,
}

/// The challenge of a verifier: its SHA-256 digest in URL base64.
pub open spec fn challenge_of(verifier: Seq<char>) -> Seq<char> {
    base64url_text(sha256(encode_utf8(verifier)))
}

/// Makes [`challenge_of`].
pub fn make_challenge(verifier: &str) -> (r: String)
    ensures
        r@ == challenge_of(verifier@),
{
    base64url_encode(sha256_digest(verifier.as_bytes()).as_slice())
}

/// Whether a text is `n` bytes in URL base64.
pub open spec fn is_token(s: Seq<char>, n: nat) -> bool {
    exists|b: Seq<u8>| b.len() == n && s == #[trigger] base64url_text(b)
}

/// Draws what a login needs at random; the challenge is that of the verifier.
pub fn draw_secrets() -> (r: Secrets)
    ensures
        is_token(r.verifier@, 64),
        r.challenge@ == challenge_of(r.verifier@),
        is_token(r.nonce@, 32),
        exists|s: Seq<char>| is_hex(s, 32) && r.device_id@ == #[trigger] grouped(s),
        is_hex(r.session_id@, 32),
        is_token(r.state_tail@, 16),
{
    let verifier = token_urlsafe(64);
    let challenge = make_challenge(verifier.as_str());
    Secrets {
        verifier,
        challenge,
        nonce: token_urlsafe(32),
        device_id: hyphenated_uuid(),
        session_id: full_uuid(),
        state_tail: token_urlsafe(16),
    }
}

// ---------------------------------------------------------------------------
// sessions
// ---------------------------------------------------------------------------

/// Whether a session has not expired.
pub open spec fn is_fresh(now: i64) -> spec_fn(Session) -> bool {
    |s: Session| now - s.created_at <= SESSION_TTL_MILLIS
}

/// The position of the oldest session, the first of them where there are several.
pub open spec fn oldest(s: Seq<Session>) -> int
    decreases s.len(),
{
    if s.len() <= 1 {
        0
    } else {
        let i = oldest(s.drop_last());
        if s.last().created_at < s[i].created_at {
            s.len() - 1
        } else {
            i
        }
    }
}

/// The sessions without the oldest, until they are few enough.
pub open spec fn newest_sessions(s: Seq<Session>) -> Seq<Session>
    decreases s.len(),
{
    if s.len() > MAX_SESSIONS && 0 <= oldest(s) < s.len() {
        newest_sessions(s.remove(oldest(s)))
    } else {
        s
    }
}

/// The sessions that are kept: those that have not expired, the newest of them.
pub open spec fn purged(s: Seq<Session>, now: i64) -> Seq<Session> {
    newest_sessions(s.filter(is_fresh(now)))
}

proof fn lemma_oldest(s: Seq<Session>)
    requires
        s.len() > 0,
    ensures
        0 <= oldest(s) < s.len(),
        forall|i: int| 0 <= i < s.len() ==> s[oldest(s)].created_at <= (#[trigger] s[i]).created_at,
    decreases s.len(),
{
    if s.len() > 1 {
        let init = s.drop_last();
        lemma_oldest(init);
        assert forall|i: int| 0 <= i < s.len() implies s[oldest(s)].created_at <= (
        #[trigger] s[i]).created_at by {
            if i < init.len() {
                assert(init[i] == s[i]);
            }
        }
    }
}

/// What is kept has not expired, and is no more than may be kept.
pub proof fn law_sessions_bounded(s: Seq<Session>, now: i64)
    ensures
        purged(s, now).len() <= MAX_SESSIONS,
        forall|i: int| 0 <= i < purged(s, now).len() ==> is_fresh(now)(#[trigger] purged(s, now)[i]),
{
    broadcast use vstd::seq_lib::group_filter_ensures;

    let f = s.filter(is_fresh(now));
    assert forall|i: int| 0 <= i < f.len() implies is_fresh(now)(#[trigger] f[i]) by {}
    lemma_newest_bounded(f, now);
}

proof fn lemma_newest_bounded(s: Seq<Session>, now: i64)
    requires
        forall|i: int| 0 <= i < s.len() ==> is_fresh(now)(#[trigger] s[i]),
    ensures
        newest_sessions(s).len() <= MAX_SESSIONS,
        forall|i: int|
            0 <= i < newest_sessions(s).len() ==> is_fresh(now)(#[trigger] newest_sessions(s)[i]),
    decreases s.len(),
{
    if s.len() > MAX_SESSIONS {
        lemma_oldest(s);
        let k = oldest(s);
        let rest = s.remove(k);
        assert forall|i: int| 0 <= i < rest.len() implies is_fresh(now)(#[trigger] rest[i]) by {
            if i < k {
                assert(rest[i] == s[i]);
            } else {
                assert(rest[i] == s[i + 1]);
            }
        }
        lemma_newest_bounded(rest, now);
    }
}

/// Whether an exchange is that of a session: the session has its id and has not run out, the
/// state that came back, if any, is the session's own, and the verifier goes with it.
pub open spec fn answers(s: Session, x: Exchange, state: Seq<char>, now: i64) -> bool {
    &&& s.id@ == x.session_id@
    &&& now - s.created_at <= 600_000
    &&& state.len() == 0 || s.state@.len() == 0 || s.state@ == state
    &&& x.code_verifier@ == s.code_verifier@
    &&& x.redirect_uri@ == s.redirect_uri@
}

proof fn lemma_purged_from(s: Seq<Session>, now: i64, i: int)
    requires
        0 <= i < purged(s, now).len(),
    ensures
        s.contains(purged(s, now)[i]),
        is_fresh(now)(purged(s, now)[i]),
{
    let f = s.filter(is_fresh(now));
    lemma_newest_from(f, i);
    crate::lists::lemma_filtered_has(s, is_fresh(now), purged(s, now)[i]);
}

proof fn lemma_newest_from(s: Seq<Session>, i: int)
    requires
        0 <= i < newest_sessions(s).len(),
    ensures
        s.contains(newest_sessions(s)[i]),
    decreases s.len(),
{
    if s.len() > MAX_SESSIONS && 0 <= oldest(s) < s.len() {
        let k = oldest(s);
        let rest = s.remove(k);
        lemma_newest_from(rest, i);
        let j = rest.index_of(newest_sessions(s)[i]);
        if j < k {
            assert(rest[j] == s[j]);
        } else {
            assert(rest[j] == s[j + 1]);
        }
    } else {
        assert(s[i] == newest_sessions(s)[i]);
    }
}

/// The position of the session with an id, or the number of sessions.
pub open spec fn session_at(s: Seq<Session>, id: Seq<char>) -> int
    decreases s.len(),
{
    if s.len() == 0 || s[0].id@ == id {
        0
    } else {
        1 + session_at(s.drop_first(), id)
    }
}

/// Whether a session has another id.
pub open spec fn other_session(id: Seq<char>) -> spec_fn(Session) -> bool {
    |s: Session| s.id@ != id
}

/// The parameters of the page where a user logs in.
pub open spec fn authorize_params(
    p: Platform,
    x: Secrets,
    state: Seq<char>,
    hint: Seq<char>,
) -> Seq<(Seq<char>, Seq<char>)> {
    let q = seq![
        ("issuer"@, p.auth_base@),
        ("client_id"@, p.client_id@),
        ("audience"@, p.audience@),
        ("redirect_uri"@, p.redirect_uri@),
        ("device_id"@, x.device_id@),
        ("screen_hint"@, "login_or_signup"@),
        ("max_age"@, "0"@),
        ("scope"@, "openid profile email offline_access"@),
        ("response_type"@, "code"@),
        ("response_mode"@, "query"@),
        ("state"@, state),
        ("nonce"@, x.nonce@),
        ("code_challenge"@, x.challenge@),
        ("code_challenge_method"@, "S256"@),
        ("auth0Client"@, p.auth0_client@),
    ];
    if hint.len() == 0 {
        q
    } else {
        q.push(("login_hint"@, hint))
    }
}

fn write_params(p: &Platform, x: &Secrets, state: &str, hint: &str) -> (r: Vec<(String, String)>)
    ensures
        pairs_view(r@) == authorize_params(*p, *x, state@, hint@),
{
    let mut q: Vec<(String, String)> = Vec::new();
    q.push(("issuer".to_owned(), p.auth_base.clone()));
    q.push(("client_id".to_owned(), p.client_id.clone()));
    q.push(("audience".to_owned(), p.audience.clone()));
    q.push(("redirect_uri".to_owned(), p.redirect_uri.clone()));
    q.push(("device_id".to_owned(), x.device_id.clone()));
    q.push(("screen_hint".to_owned(), "login_or_signup".to_owned()));
    q.push(("max_age".to_owned(), "0".to_owned()));
    q.push(("scope".to_owned(), "openid profile email offline_access".to_owned()));
    q.push(("response_type".to_owned(), "code".to_owned()));
    q.push(("response_mode".to_owned(), "query".to_owned()));
    q.push(("state".to_owned(), state.to_owned()));
    q.push(("nonce".to_owned(), x.nonce.clone()));
    q.push(("code_challenge".to_owned(), x.challenge.clone()));
    q.push(("code_challenge_method".to_owned(), "S256".to_owned()));
    q.push(("auth0Client".to_owned(), p.auth0_client.clone()));
    let ghost none: Seq<char> = Seq::empty();
    assert(pairs_view(q@) =~= authorize_params(*p, *x, state@, none));
    if !hint.is_empty() {
        let ghost before = pairs_view(q@);
        q.push(("login_hint".to_owned(), hint.to_owned()));
        assert(pairs_view(q@) =~= before.push(("login_hint"@, hint@)));
    }
    q
}

// ---------------------------------------------------------------------------
// callbacks
// ---------------------------------------------------------------------------

/// The parameters in the query of an address, or why it is none.
pub uninterp spec fn address_query(s: Seq<char>) -> Result<Seq<(Seq<char>, Seq<char>)>, Seq<char>>;

/// Calls `url::Url::parse` and `query_pairs`. Claims that the parameters, and the text of the
/// error, depend on the address alone.
#[verifier::external_body]
fn read_address(s: &str) -> (r: Result<Vec<(String, String)>, String>)
    ensures
        match r {
            Ok(v) => address_query(s@) == Ok::<Seq<(Seq<char>, Seq<char>)>, Seq<char>>(
                pairs_view(v@),
            ),
            Err(e) => address_query(s@) == Err::<Seq<(Seq<char>, Seq<char>)>, Seq<char>>(e@),
        },
{
    match url::Url::parse(s) {
        Ok(u) => Ok(u.query_pairs().map(|(k, v)| (k.into_owned(), v.into_owned())).collect()),
        Err(e) => Err(e.to_string()),
    }
}

/// The last value of a parameter, without the white space round it.
pub open spec fn last_param(q: Seq<(Seq<char>, Seq<char>)>, k: Seq<char>) -> Seq<char>
    decreases q.len(),
{
    if q.len() == 0 {
        Seq::empty()
    } else if q.last().0 == k {
        trimmed(q.last().1)
    } else {
        last_param(q.drop_last(), k)
    }
}

fn param(q: &Vec<(String, String)>, k: &str) -> (r: String)
    ensures
        r@ == last_param(pairs_view(q@), k@),
{
    let ghost v = pairs_view(q@);
    let mut i: usize = q.len();
    assert(v.take(v.len() as int) =~= v);
    while i > 0
        invariant
            i <= q@.len(),
            v == pairs_view(q@),
            last_param(v, k@) == last_param(v.take(i as int), k@),
        decreases i,
    {
        assert(v.take(i as int).drop_last() =~= v.take(i - 1));
        assert(v.take(i as int).last() == v[i - 1]);
        if same(q[i - 1].0.as_str(), k) {
            return trim(q[i - 1].1.as_str());
        }
        i -= 1;
    }
    String::new()
}

/// Whether a text is an address.
pub open spec fn is_address(s: Seq<char>) -> bool {
    begins(s, "http://"@) || begins(s, "https://"@)
}

/// The code and the state in the parameters of a callback, or what it says went wrong.
pub fn read_callback(q: &Vec<(String, String)>) -> (r: Result<(String, String), OAuthLoginError>)
    ensures
        ({
            let v = pairs_view(q@);
            let code = last_param(v, "code"@);
            if code.len() > 0 {
                r matches Ok(p) && p.0@ == code && p.1@ == last_param(v, "state"@)
            } else {
                r matches Err(e) && e.0@ == or_else(
                    last_param(v, "error_description"@),
                    or_else(last_param(v, "error"@), "callback URL 中没有 code 参数"@),
                )
            }
        }),
{
    let code = param(q, "code");
    if code.as_str().is_empty() {
        let second = crate::json::non_empty_or(
            param(q, "error"),
            "callback URL 中没有 code 参数",
        );
        return Err(
            OAuthLoginError(
                crate::json::non_empty_or(param(q, "error_description"), second.as_str()),
            ),
        );
    }
    Ok((code, param(q, "state")))
}

/// The code and the state of a callback: the parameters of an address, or a bare code.
pub open spec fn callback_code(value: Seq<char>, r: Result<(String, String), OAuthLoginError>) -> bool {
    let raw = trimmed(value);
    if raw.len() == 0 {
        r matches Ok(p) && p.0@.len() == 0 && p.1@.len() == 0
    } else if is_address(raw) {
        match address_query(raw) {
            Ok(v) => {
                let code = last_param(v, "code"@);
                if code.len() > 0 {
                    r matches Ok(p) && p.0@ == code && p.1@ == last_param(v, "state"@)
                } else {
                    r matches Err(e) && e.0@ == or_else(
                        last_param(v, "error_description"@),
                        or_else(last_param(v, "error"@), "callback URL 中没有 code 参数"@),
                    )
                }
            },
            Err(x) => r matches Err(e) && e.0@ == "无法解析 callback URL: "@ + x,
        }
    } else {
        r matches Ok(p) && p.0@ == raw && p.1@.len() == 0
    }
}

/// Reads the code and the state of a callback.
pub fn extract_code_from_callback(value: &str) -> (r: Result<(String, String), OAuthLoginError>)
    ensures
        callback_code(value@, r),
{
    let raw = trim(value);
    if raw.as_str().is_empty() {
        return Ok((String::new(), String::new()));
    }
    if starts_with(raw.as_str(), "http://") || starts_with(raw.as_str(), "https://") {
        return match read_address(raw.as_str()) {
            Ok(q) => read_callback(&q),
            Err(e) => Err(OAuthLoginError(cat("无法解析 callback URL: ", e.as_str()))),
        };
    }
    Ok((raw, String::new()))
}

/// The session that a state names: what stands before its first point.
pub open spec fn state_session(state: Seq<char>) -> Seq<char> {
    match cut_once(state, '.') {
        Some((a, _)) => a,
        None => state,
    }
}

/// A code to be exchanged for tokens.
pub struct Exchange {
    pub session_id: String,
    pub code: String,
    pub code_verifier: String,
    pub redirect_uri: String,
}

// ---------------------------------------------------------------------------
// the service
// ---------------------------------------------------------------------------

/// The sessions that wait for their callbacks.
pub struct OAuthLoginService {
    sessions: Vec<Session>,
}

/// The position of the session of a callback among those that are kept: the one that its state
/// names, else the one that the request names; the number of sessions where there is neither.
pub open spec fn matched_session(kept: Seq<Session>, state: Seq<char>, asked: Seq<char>) -> int {
    let first = state_session(state);
    if first.len() > 0 && session_at(kept, first) < kept.len() {
        session_at(kept, first)
    } else if asked.len() > 0 {
        session_at(kept, asked)
    } else {
        kept.len() as int
    }
}

impl OAuthLoginService {
    pub closed spec fn sessions(self) -> Seq<Session> {
        self.sessions@
    }

    pub fn new() -> (r: OAuthLoginService)
        ensures
            r.sessions() == Seq::<Session>::empty(),
    {
        OAuthLoginService { sessions: Vec::new() }
    }

    fn purge_expired(&mut self, now: i64)
        ensures
            final(self).sessions() == purged(old(self).sessions(), now),
    {
        let ghost s = self.sessions();
        let ghost keep = is_fresh(now);
        let mut kept: Vec<Session> = Vec::new();
        let mut i: usize = 0;
        proof {
            reveal(Seq::filter);
            assert(kept@ =~= s.take(0).filter(keep));
        }
        while i < self.sessions.len()
            invariant
                i <= self.sessions@.len(),
                s == self.sessions@,
                keep == is_fresh(now),
                kept@ == s.take(i as int).filter(keep),
            decreases self.sessions@.len() - i,
        {
            assert(s.take(i + 1).drop_last() =~= s.take(i as int));
            assert(s.take(i + 1).filter(keep) == if keep(s[i as int]) {
                kept@.push(s[i as int])
            } else {
                kept@
            }) by {
                reveal(Seq::filter);
            }
            if now as i128 - self.sessions[i].created_at as i128 <= SESSION_TTL_MILLIS as i128 {
                kept.push(self.sessions[i].duplicate());
            }
            i += 1;
        }
        assert(s.take(i as int) =~= s);
        while kept.len() > MAX_SESSIONS
            invariant
                newest_sessions(kept@) == purged(s, now),
            decreases kept@.len(),
        {
            proof {
                lemma_oldest(kept@);
            }
            let k = find_oldest(&kept);
            kept.remove(k);
        }
        self.sessions = kept;
    }

    fn find(&self, id: &str) -> (r: usize)
        ensures
            r == session_at(self.sessions(), id@),
            r <= self.sessions().len(),
    {
        let ghost s = self.sessions();
        let mut i: usize = 0;
        assert(s.skip(0) =~= s);
        while i < self.sessions.len() && !same(self.sessions[i].id.as_str(), id)
            invariant
                i <= self.sessions@.len(),
                s == self.sessions@,
                session_at(s, id@) == i + session_at(s.skip(i as int), id@),
            ensures
                i <= self.sessions@.len(),
                s == self.sessions@,
                session_at(s, id@) == i + session_at(s.skip(i as int), id@),
                i < self.sessions@.len() ==> s[i as int].id@ == id@,
            decreases self.sessions@.len() - i,
        {
            assert(s.skip(i as int).drop_first() =~= s.skip(i + 1));
            i += 1;
        }
        i
    }

    fn forget(&mut self, id: &str)
        ensures
            final(self).sessions() == old(self).sessions().filter(other_session(id@)),
    {
        let ghost s = self.sessions();
        let ghost keep = other_session(id@);
        let mut kept: Vec<Session> = Vec::new();
        let mut i: usize = 0;
        proof {
            reveal(Seq::filter);
            assert(kept@ =~= s.take(0).filter(keep));
        }
        while i < self.sessions.len()
            invariant
                i <= self.sessions@.len(),
                s == self.sessions@,
                keep == other_session(id@),
                kept@ == s.take(i as int).filter(keep),
            decreases self.sessions@.len() - i,
        {
            assert(s.take(i + 1).drop_last() =~= s.take(i as int));
            assert(s.take(i + 1).filter(keep) == if keep(s[i as int]) {
                kept@.push(s[i as int])
            } else {
                kept@
            }) by {
                reveal(Seq::filter);
            }
            if !same(self.sessions[i].id.as_str(), id) {
                kept.push(self.sessions[i].duplicate());
            }
            i += 1;
        }
        assert(s.take(i as int) =~= s);
        self.sessions = kept;
    }

    /// Begins a login: gives the id of its session and the page where the user logs in.
    pub fn start(&mut self, platform: &Platform, secrets: &Secrets, email_hint: &str, now: i64) -> (r:
        Json)
        ensures
            ({
                let id = secrets.session_id@;
                let state = id + "."@ + secrets.state_tail@;
                let kept = purged(old(self).sessions(), now).filter(other_session(id));
                &&& final(self).sessions().len() == kept.len() + 1
                &&& final(self).sessions().drop_last() == kept
                &&& final(self).sessions().last().id@ == id
                &&& final(self).sessions().last().state@ == state
                &&& final(self).sessions().last().code_verifier@ == secrets.verifier@
                &&& final(self).sessions().last().redirect_uri@ == platform.redirect_uri@
                &&& final(self).sessions().last().created_at == now
                &&& r@ == empty_object().put("session_id"@, JsonView::Str(id)).put(
                    "authorize_url"@,
                    JsonView::Str(
                        platform.auth_base@ + "/api/accounts/authorize?"@ + query_text(
                            authorize_params(*platform, *secrets, state, trimmed(email_hint@)),
                        ),
                    ),
                ).put("expires_in"@, JsonView::Str("600"@)).put(
                    "redirect_uri_prefix"@,
                    JsonView::Str(platform.redirect_uri@),
                )
            }),
    {
        let state = cat3(secrets.session_id.as_str(), ".", secrets.state_tail.as_str());
        let hint = trim(email_hint);
        let query = urlencode(&write_params(platform, secrets, state.as_str(), hint.as_str()));
        let url = cat3(
            platform.auth_base.as_str(),
            "/api/accounts/authorize?",
            query.as_str(),
        );
        self.purge_expired(now);
        self.forget(secrets.session_id.as_str());
        let ghost kept = self.sessions@;
        self.sessions.push(
            Session {
                id: secrets.session_id.clone(),
                code_verifier: secrets.verifier.clone(),
                state,
                created_at: now,
                redirect_uri: platform.redirect_uri.clone(),
            },
        );
        assert(self.sessions@.drop_last() =~= kept);
        let mut o = Json::object();
        o.set("session_id", Json::from_text(secrets.session_id.as_str()));
        o.set("authorize_url", Json::Str(url));
        o.set("expires_in", Json::from_text("600"));
        o.set("redirect_uri_prefix", Json::from_text(platform.redirect_uri.as_str()));
        o
    }

    /// Finds the session of a callback with a given code and state, and what to exchange. The
    /// state must be the session's own, where both have one.
    pub fn match_callback(&mut self, session_id: &str, code: &str, state: &str, now: i64) -> (r: Result<
        Exchange,
        OAuthLoginError,
    >)
        ensures
            ({
                let asked = trimmed(session_id@);
                let kept = purged(old(self).sessions(), now);
                let i = matched_session(kept, state@, asked);
                if code@.len() == 0 {
                    &&& r matches Err(e) && e.0@ == "缺少 code 或 callback URL"@
                    &&& final(self).sessions() == old(self).sessions()
                } else if state_session(state@).len() == 0 && asked.len() == 0 {
                    &&& r matches Err(e) && e.0@
                        == "既未提供 session_id，callback URL 中也未携带 state"@
                    &&& final(self).sessions() == old(self).sessions()
                } else if i >= kept.len() {
                    &&& final(self).sessions() == kept
                    &&& r matches Err(e) && e.0@
                        == "OAuth 会话已过期或不存在，请回到导入对话框点\"重新生成\"再走一次"@
                } else if state@.len() > 0 && kept[i].state@.len() > 0 && state@ != kept[i].state@ {
                    &&& final(self).sessions() == kept
                    &&& r matches Err(e) && e.0@
                        == "state 不匹配。常见原因：你点过两次\"打开授权页面\"，但浏览器里登录的还是前一次的窗口。请点\"重新生成\"重来。"@
                } else {
                    &&& final(self).sessions() == kept
                    &&& r matches Ok(x) && x.session_id@ == (if state_session(state@).len() > 0
                        && session_at(kept, state_session(state@)) < kept.len() {
                        state_session(state@)
                    } else {
                        asked
                    }) && x.code@ == code@ && x.code_verifier@ == kept[i].code_verifier@
                        && x.redirect_uri@ == kept[i].redirect_uri@
                }
            }),
            r matches Ok(x) ==> x.code@ == code@ && code@.len() > 0 && (exists|k: int|
                0 <= k < old(self).sessions().len() && answers(
                    #[trigger] old(self).sessions()[k],
                    x,
                    state@,
                    now,
                )),
    {
        let ghost before = self.sessions();
        let asked = trim(session_id);
        if code.is_empty() {
            return Err(err("缺少 code 或 callback URL"));
        }
        let first = match split_once(state, '.') {
            Some((a, _)) => a,
            None => state.to_owned(),
        };
        if first.as_str().is_empty() && asked.as_str().is_empty() {
            return Err(err("既未提供 session_id，callback URL 中也未携带 state"));
        }
        self.purge_expired(now);
        let n = self.sessions.len();
        let by_state = if first.as_str().is_empty() {
            n
        } else {
            self.find(first.as_str())
        };
        let (i, sid): (usize, String) = if by_state < n {
            (by_state, first)
        } else if asked.as_str().is_empty() {
            (n, String::new())
        } else {
            (self.find(asked.as_str()), asked)
        };
        if i >= n {
            return Err(
                err(
                    "OAuth 会话已过期或不存在，请回到导入对话框点\"重新生成\"再走一次",
                ),
            );
        }
        let session = &self.sessions[i];
        if !state.is_empty() && !session.state.as_str().is_empty() && !same(
            state,
            session.state.as_str(),
        ) {
            return Err(
                err(
                    "state 不匹配。常见原因：你点过两次\"打开授权页面\"，但浏览器里登录的还是前一次的窗口。请点\"重新生成\"重来。",
                ),
            );
        }
        proof {
            lemma_purged_from(before, now, i as int);
            if by_state < n {
                crate::exchange_laws::law_login_found(self.sessions(), state_session(state@));
            } else {
                crate::exchange_laws::law_login_found(self.sessions(), trimmed(session_id@));
            }
        }
        Ok(
            Exchange {
                session_id: sid,
                code: code.to_owned(),
                code_verifier: session.code_verifier.clone(),
                redirect_uri: session.redirect_uri.clone(),
            },
        )
    }

    /// Ends a login: its session is forgotten.
    pub fn complete(&mut self, session_id: &str)
        ensures
            final(self).sessions() == old(self).sessions().filter(other_session(session_id@)),
    {
        self.forget(session_id);
    }
}

fn find_oldest(s: &Vec<Session>) -> (r: usize)
    requires
        s@.len() > 0,
    ensures
        r == oldest(s@),
        r < s@.len(),
{
    let mut k: usize = 0;
    let mut i: usize = 1;
    while i < s.len()
        invariant
            1 <= i <= s@.len(),
            k < i,
            k == oldest(s@.take(i as int)),
        decreases s@.len() - i,
    {
        assert(s@.take(i + 1).drop_last() =~= s@.take(i as int));
        assert(s@.take(i + 1)[k as int] == s@[k as int]);
        assert(s@.take(i + 1).last() == s@[i as int]);
        if s[i].created_at < s[k].created_at {
            k = i;
        }
        i += 1;
    }
    assert(s@.take(i as int) =~= s@);
    k
}

/// What is sent to exchange a code for tokens.
pub fn exchange_payload(platform: &Platform, x: &Exchange) -> (r: Json)
    ensures
        r@ == empty_object().put("client_id"@, JsonView::Str(platform.client_id@)).put(
            "code_verifier"@,
            JsonView::Str(x.code_verifier@),
        ).put("grant_type"@, JsonView::Str("authorization_code"@)).put(
            "code"@,
            JsonView::Str(x.code@),
        ).put("redirect_uri"@, JsonView::Str(x.redirect_uri@)),
        r@.str_at("client_id"@) == platform.client_id@,
        r@.str_at("code_verifier"@) == x.code_verifier@,
        r@.str_at("grant_type"@) == "authorization_code"@,
        r@.str_at("code"@) == x.code@,
        r@.str_at("redirect_uri"@) == x.redirect_uri@,
{
    broadcast use crate::value::group_fields;

    proof {
        reveal_strlit("client_id");
        reveal_strlit("code_verifier");
        reveal_strlit("grant_type");
        reveal_strlit("code");
        reveal_strlit("redirect_uri");
        assert("client_id"@.len() == 9);
        assert("code_verifier"@.len() == 13);
        assert("grant_type"@.len() == 10);
        assert("code"@.len() == 4);
        assert("redirect_uri"@.len() == 12);
    }
    let mut o = Json::object();
    o.set("client_id", Json::from_text(platform.client_id.as_str()));
    o.set("code_verifier", Json::from_text(x.code_verifier.as_str()));
    o.set("grant_type", Json::from_text("authorization_code"));
    o.set("code", Json::from_text(x.code.as_str()));
    o.set("redirect_uri", Json::from_text(x.redirect_uri.as_str()));
    o
}

/// What comes of the exchange of a code, given the value and the text of the answer: the tokens,
/// or why there are none. There must be an access token and a refresh token.
pub open spec fn exchanged(status: u16, data: JsonView, text: Seq<char>) -> Result<
    JsonView,
    Seq<char>,
> {
    let access = trimmed(data.str_at("access_token"@));
    let refresh = trimmed(data.str_at("refresh_token"@));
    let detail = or_else(failure_reason(data), head(text, 300));
    if status != 200 || !(data is Obj) || access.len() == 0 {
        Err(
            "OpenAI 拒绝换 token (HTTP "@ + decimal(status as nat) + ")"@ + (if detail.len() == 0 {
                Seq::empty()
            } else {
                ": "@ + detail
            }),
        )
    } else if refresh.len() == 0 {
        Err("OpenAI 没有返回 refresh_token（可能 scope 未包含 offline_access 或 code 已使用过）"@)
    } else {
        Ok(
            empty_object().put("access_token"@, JsonView::Str(access)).put(
                "refresh_token"@,
                JsonView::Str(refresh),
            ).put("id_token"@, JsonView::Str(trimmed(data.str_at("id_token"@)))),
        )
    }
}

/// Reads the value that a code was exchanged for.
pub fn read_exchange_value(status: u16, data: &Json, text: &str) -> (r: Result<Json, OAuthLoginError>)
    ensures
        match exchanged(status, data@, text@) {
            Ok(v) => r matches Ok(x) && x@ == v,
            Err(e) => r matches Err(x) && x.0@ == e,
        },
{
    let access = trim(data.str_at("access_token").as_str());
    if status != 200 || !data.is_object() || access.as_str().is_empty() {
        let short = prefix_chars(text, 300);
        let detail = crate::json::non_empty_or(
            crate::refresh::reason_of(data),
            short.as_str(),
        );
        let mut e = cat3(
            "OpenAI 拒绝换 token (HTTP ",
            decimal_text(status as u128).as_str(),
            ")",
        );
        let ghost start = e@;
        if !detail.as_str().is_empty() {
            let tail = cat(": ", detail.as_str());
            e.append(tail.as_str());
        }
        assert(e@ =~= start + (if detail@.len() == 0 {
            Seq::empty()
        } else {
            ": "@ + detail@
        }));
        return Err(OAuthLoginError(e));
    }
    let refresh = trim(data.str_at("refresh_token").as_str());
    if refresh.as_str().is_empty() {
        return Err(
            err(
                "OpenAI 没有返回 refresh_token（可能 scope 未包含 offline_access 或 code 已使用过）",
            ),
        );
    }
    let mut o = Json::object();
    o.set("access_token", Json::Str(access));
    o.set("refresh_token", Json::Str(refresh));
    o.set("id_token", Json::Str(trim(data.str_at("id_token").as_str())));
    Ok(o)
}

/// Reads the answer to the exchange of a code.
pub fn read_exchange(status: u16, text: &str) -> (r: Result<Json, OAuthLoginError>)
    ensures
        match exchanged(status, body_value(text@), text@) {
            Ok(v) => r matches Ok(x) && x@ == v,
            Err(e) => r matches Err(x) && x.0@ == e,
        },
{
    let data = parse_body(text);
    read_exchange_value(status, &data, text)
}

} // verus!
