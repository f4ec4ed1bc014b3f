//! Who makes a request, what the server's public address is, and which files it serves.
use vstd::prelude::*;

use crate::auth::{hashed, opened_at, AuthService, KeyView, FLUSH_SECONDS};
use crate::clock::Moment;
use crate::error::{message_detail, AppError};
use crate::text::{
    ascii_lower, begins, cat, cat3, contains, cut_once, occurs, same, split_once, starts_with, strip,
    to_ascii_lower, to_lower, trim, trim_class, trimmed, unicode_lower, views, CharClass,
};
use crate::value::{empty_object, list_view, Json, JsonView};

verus! {

broadcast use crate::value::group_json;

/// Who makes a request.
pub struct Identity {
    pub id: String,
    pub name: String,
    pub role: String,
}

impl Identity {
    /// Whether it is an administrator.
    pub fn is_admin(&self) -> (r: bool)
        ensures
            r == (self.role@ == "admin"@),
    {
        same(self.role.as_str(), "admin")
    }

    pub fn to_json(&self) -> (r: Json)
        ensures
            r@ == empty_object().put("id"@, JsonView::Str(self.id@)).put(
                "name"@,
                JsonView::Str(self.name@),
            ).put("role"@, JsonView::Str(self.role@)),
    {
        let mut o = Json::object();
        o.set("id", Json::from_text(self.id.as_str()));
        o.set("name", Json::from_text(self.name.as_str()));
        o.set("role", Json::from_text(self.role.as_str()));
        o
    }
}

/// The token of an authorization header: what follows the word `bearer`, in any case, and a
/// space; empty where there is none.
pub open spec fn bearer_token(header: Seq<char>) -> Seq<char> {
    match cut_once(header, ' ') {
        Some((scheme, rest)) => if ascii_lower(scheme) == "bearer"@ {
            trimmed(rest)
        } else {
            Seq::empty()
        },
        None => Seq::empty(),
    }
}

/// The header of an argument that may be missing.
pub open spec fn header_view(h: Option<&str>) -> Seq<char> {
    match h {
        Some(s) => s@,
        None => Seq::empty(),
    }
}

/// Reads the token of an authorization header.
pub fn extract_bearer_token(authorization: Option<&str>) -> (r: String)
    ensures
        r@ == bearer_token(header_view(authorization)),
{
    match authorization {
        Some(value) => match split_once(value, ' ') {
            Some((scheme, rest)) => {
                if same(to_ascii_lower(scheme.as_str()).as_str(), "bearer") {
                    trim(rest.as_str())
                } else {
                    String::new()
                }
            },
            None => String::new(),
        },
        None => {
            proof {
                crate::text::lemma_first_of(Seq::empty(), ' ');
            }
            String::new()
        },
    }
}

/// The administrator, where the token is the administrator's key.
pub fn legacy_admin_identity(auth_key: &str, token: &str) -> (r: Option<Identity>)
    ensures
        if auth_key@.len() > 0 && token@ == auth_key@ {
            r matches Some(i) && i.id@ == "admin"@ && i.name@ == "管理员"@ && i.role@ == "admin"@
        } else {
            r is None
        },
{
    if !auth_key.is_empty() && same(token, auth_key) {
        Some(
            Identity {
                id: "admin".to_owned(),
                name: "管理员".to_owned(),
                role: "admin".to_owned(),
            },
        )
    } else {
        None
    }
}

/// A request that was let in.
pub struct Admitted {
    pub identity: Identity,
    /// Whether the use of the key is to be stored.
    pub flush: bool,
}

/// Whether a token is the administrator's key.
pub open spec fn is_admin_key(auth_key: Seq<char>, token: Seq<char>) -> bool {
    auth_key.len() > 0 && token == auth_key
}

/// The position of the key that a token opens, or the number of keys.
pub open spec fn key_position(keys: Seq<KeyView>, token: Seq<char>) -> int {
    if trimmed(token).len() == 0 {
        keys.len() as int
    } else {
        opened_at(keys, hashed(trimmed(token)))
    }
}

/// Lets a request in by its authorization header: the administrator by the key that is set,
/// others by their keys. All else is refused.
pub fn require_identity(
    auth_key: &str,
    keys: &mut AuthService,
    authorization: Option<&str>,
    time: Moment,
    at: &str,
) -> (r: Result<Admitted, AppError>)
    ensures
        final(keys).flushes() == old(keys).flushes(),
        ({
            let token = bearer_token(header_view(authorization));
            let ks = old(keys).keys();
            let i = key_position(ks, token);
            if is_admin_key(auth_key@, token) {
                &&& final(keys).keys() == ks
                &&& r matches Ok(a) && a.identity.id@ == "admin"@ && a.identity.name@
                    == "管理员"@ && a.identity.role@ == "admin"@ && !a.flush
            } else if i < ks.len() {
                &&& final(keys).keys() == ks.update(i, KeyView { last_used_at: Some(at@), ..ks[i] })
                &&& r matches Ok(a) && a.identity.id@ == ks[i].id && a.identity.name@ == ks[i].name
                    && a.identity.role@ == ks[i].role && a.flush == (
                !old(keys).flushes().dom().contains(ks[i].id) || !time.within(
                    old(keys).flushes()[ks[i].id],
                    FLUSH_SECONDS as int,
                ))
            } else {
                &&& final(keys).keys() == ks
                &&& r matches Err(e) && e.is_plain(
                    401,
                    message_detail("密钥无效或已失效，请重新登录"@),
                )
            }
        }),
        r matches Ok(a) ==> {
            let token = bearer_token(header_view(authorization));
            ||| token.len() > 0 && token == auth_key@ && a.identity.role@ == "admin"@
            ||| exists|i: int|
                0 <= i < old(keys).keys().len() && (#[trigger] old(keys).keys()[i]).enabled
                    && old(keys).keys()[i].key_hash == hashed(trimmed(token)) && a.identity.id@
                    == old(keys).keys()[i].id && a.identity.role@ == old(keys).keys()[i].role
        },
        r is Err ==> {
            let token = bearer_token(header_view(authorization));
            &&& token.len() == 0 || token != auth_key@
            &&& trimmed(token).len() > 0 ==> forall|i: int|
                0 <= i < old(keys).keys().len() && (#[trigger] old(keys).keys()[i]).enabled
                    ==> old(keys).keys()[i].key_hash != hashed(trimmed(token))
                    || old(keys).keys()[i].key_hash.len() == 0
        },
{
    proof {
        let token = bearer_token(header_view(authorization));
        let ks = keys.keys();
        let h = hashed(trimmed(token));
        crate::auth::law_only_enabled_opens(ks, h);
        if opened_at(ks, h) == ks.len() {
            assert forall|i: int| 0 <= i < ks.len() && (#[trigger] ks[i]).enabled implies ks[i].key_hash
                != h || ks[i].key_hash.len() == 0 by {
                assert(!crate::auth::opened(ks[i], h));
            }
        }
    }
    let token = extract_bearer_token(authorization);
    match legacy_admin_identity(auth_key, token.as_str()) {
        Some(identity) => {
            return Ok(Admitted { identity, flush: false });
        },
        None => {},
    }
    let ghost ks = keys.keys();
    match keys.authenticate(token.as_str(), time, at) {
        Some((shown, flush)) => {
            proof {
                let i = key_position(ks, token@);
                lemma_shown_fields(KeyView { last_used_at: Some(at@), ..ks[i] });
            }
            let role = match shown.get("role") {
                Some(Json::Str(s)) => s.clone(),
                _ => "user".to_owned(),
            };
            Ok(
                Admitted {
                    identity: Identity {
                        id: shown.str_at("id"),
                        name: shown.str_at("name"),
                        role,
                    },
                    flush,
                },
            )
        },
        None => Err(AppError::message(401, "密钥无效或已失效，请重新登录")),
    }
}

proof fn lemma_shown_fields(k: KeyView)
    ensures
        k.shown().get("id"@) == Some(JsonView::Str(k.id)),
        k.shown().get("name"@) == Some(JsonView::Str(k.name)),
        k.shown().get("role"@) == Some(JsonView::Str(k.role)),
{
    broadcast use crate::value::group_fields;

    reveal_strlit("id");
    reveal_strlit("name");
    reveal_strlit("role");
    reveal_strlit("enabled");
    reveal_strlit("created_at");
    reveal_strlit("last_used_at");
    assert("id"@.len() == 2);
    assert("name"@.len() == 4);
    assert("role"@.len() == 4);
    assert("name"@[0] != "role"@[0]);
    assert("enabled"@.len() == 7);
    assert("created_at"@.len() == 10);
    assert("last_used_at"@.len() == 12);
}

/// Lets only administrators pass.
pub fn require_admin(admitted: Admitted) -> (r: Result<Admitted, AppError>)
    ensures
        if admitted.identity.role@ == "admin"@ {
            r matches Ok(a) && a == admitted
        } else {
            r matches Err(e) && e.is_plain(403, message_detail("需要管理员权限才能执行这个操作"@))
        },
        r is Ok <==> admitted.identity.role@ == "admin"@,
        r matches Ok(a) ==> a.identity.id@ == admitted.identity.id@,
{
    if admitted.identity.is_admin() {
        Ok(admitted)
    } else {
        Err(AppError::message(403, "需要管理员权限才能执行这个操作"))
    }
}

/// The key of a request: the authorization header, or else the header `x-api-key`.
pub fn message_authorization(authorization: Option<String>, api_key: Option<String>) -> (r: Option<
    String,
>)
    ensures
        match authorization {
            Some(a) => r matches Some(s) && s@ == a@,
            None => match api_key {
                Some(k) => r matches Some(s) && s@ == "Bearer "@ + k@,
                None => r is None,
            },
        },
{
    match authorization {
        Some(a) => Some(a),
        None => match api_key {
            Some(k) => Some(cat("Bearer ", k.as_str())),
            None => None,
        },
    }
}

/// The base of the addresses of images: what is configured, else what the request came to.
pub fn resolve_image_base_url(configured: &str, host: Option<&str>, scheme: &str) -> (r: String)
    ensures
        r@ == (if trimmed(configured@).len() > 0 {
            configured@
        } else {
            scheme@ + "://"@ + (match host {
                Some(h) => h@,
                None => "localhost"@,
            })
        }),
{
    if !trim(configured).as_str().is_empty() {
        return configured.to_owned();
    }
    let h = match host {
        Some(h) => h,
        None => "localhost",
    };
    cat3(scheme, "://", h)
}

/// The error for a message about images: one about quota asks to come back later.
pub fn image_quota_error(message: &str) -> (r: AppError)
    ensures
        if occurs(unicode_lower(message@), "no available image quota"@) {
            r.is_plain(429, message_detail("no available image quota"@))
        } else {
            r.is_plain(502, message_detail(message@))
        },
{
    if contains(to_lower(message).as_str(), "no available image quota") {
        AppError::message(429, "no available image quota")
    } else {
        AppError::message(502, message)
    }
}

// ---------------------------------------------------------------------------
// records without their secrets
// ---------------------------------------------------------------------------

/// A pool without its secret.
pub open spec fn bare_pool() -> spec_fn(JsonView) -> Option<JsonView> {
    |p: JsonView|
        if p is Obj {
            Some(p.without("secret_key"@))
        } else {
            None
        }
}

/// A pool without its secret.
pub fn sanitize_cpa_pool(pool: &Json) -> (r: Option<Json>)
    ensures
        match r {
            Some(v) => pool@ is Obj && v@ == pool@.without("secret_key"@),
            None => !(pool@ is Obj),
        },
{
    if !pool.is_object() {
        return None;
    }
    let mut out = pool.copy();
    out.remove("secret_key");
    Some(out)
}

/// The pools without their secrets.
pub fn sanitize_cpa_pools(pools: &Vec<Json>) -> (r: Vec<Json>)
    ensures
        list_view(r@) == list_view(pools@).filter_map(bare_pool()),
{
    let ghost v = list_view(pools@);
    let ghost f = bare_pool();
    let mut out: Vec<Json> = Vec::new();
    let mut i: usize = 0;
    assert(v.take(0).filter_map(f) =~= Seq::empty());
    assert(list_view(out@) =~= Seq::empty());
    while i < pools.len()
        invariant
            i <= pools@.len(),
            v == list_view(pools@),
            f == bare_pool(),
            list_view(out@) == v.take(i as int).filter_map(f),
        decreases pools@.len() - i,
    {
        proof {
            v.lemma_filter_map_take_succ(f, i as int);
        }
        let ghost done = list_view(out@);
        match sanitize_cpa_pool(&pools[i]) {
            Some(p) => {
                let ghost pv = p@;
                out.push(p);
                assert(list_view(out@) =~= done + seq![pv]);
            },
            None => {},
        }
        assert(list_view(out@) =~= v.take(i + 1).filter_map(f));
        i += 1;
    }
    assert(v.take(i as int) =~= v);
    out
}

/// A server without its secrets.
pub open spec fn bare_server(s: JsonView) -> JsonView {
    s.without("password"@).without("api_key"@).put(
        "has_api_key"@,
        JsonView::Bool(trimmed(s.str_at("api_key"@)).len() > 0),
    )
}

/// The servers, without their secrets.
pub open spec fn bare_server_of() -> spec_fn(JsonView) -> Option<JsonView> {
    |s: JsonView|
        if s is Obj {
            Some(bare_server(s))
        } else {
            None
        }
}

/// A server without its secrets, and whether it has a key.
pub fn sanitize_sub2api_server(server: &Json) -> (r: Option<Json>)
    ensures
        match r {
            Some(v) => server@ is Obj && v@ == bare_server(server@),
            None => !(server@ is Obj),
        },
{
    if !server.is_object() {
        return None;
    }
    let has = !trim(server.str_at("api_key").as_str()).as_str().is_empty();
    let mut out = server.copy();
    out.remove("password");
    out.remove("api_key");
    out.set("has_api_key", Json::Bool(has));
    Some(out)
}

/// The servers without their secrets.
pub fn sanitize_sub2api_servers(servers: &Vec<Json>) -> (r: Vec<Json>)
    ensures
        list_view(r@) == list_view(servers@).filter_map(bare_server_of()),
{
    let ghost v = list_view(servers@);
    let ghost f = bare_server_of();
    let mut out: Vec<Json> = Vec::new();
    let mut i: usize = 0;
    assert(v.take(0).filter_map(f) =~= Seq::empty());
    assert(list_view(out@) =~= Seq::empty());
    while i < servers.len()
        invariant
            i <= servers@.len(),
            v == list_view(servers@),
            f == bare_server_of(),
            list_view(out@) == v.take(i as int).filter_map(f),
        decreases servers@.len() - i,
    {
        proof {
            v.lemma_filter_map_take_succ(f, i as int);
        }
        let ghost done = list_view(out@);
        match sanitize_sub2api_server(&servers[i]) {
            Some(p) => {
                let ghost pv = p@;
                out.push(p);
                assert(list_view(out@) =~= done + seq![pv]);
            },
            None => {},
        }
        assert(list_view(out@) =~= v.take(i + 1).filter_map(f));
        i += 1;
    }
    assert(v.take(i as int) =~= v);
    out
}

/// No secret of a pool or a server is shown.
pub proof fn law_secrets_not_shown(v: JsonView)
    requires
        v is Obj,
    ensures
        v.without("secret_key"@).get("secret_key"@) is None,
        bare_server(v).get("password"@) is None,
        bare_server(v).get("api_key"@) is None,
{
    broadcast use crate::value::group_fields;

    reveal_strlit("password");
    reveal_strlit("api_key");
    reveal_strlit("has_api_key");
    assert("password"@.len() == 8);
    assert("api_key"@.len() == 7);
    assert("has_api_key"@.len() == 11);
}

// ---------------------------------------------------------------------------
// files of the web interface
// ---------------------------------------------------------------------------

/// The files that a path can stand for, in the order in which they are tried: the path itself,
/// the index of a directory, and the page of that name.
pub open spec fn asset_candidates(path: Seq<char>) -> Seq<Seq<char>> {
    let clean = strip(path, CharClass::Just('/'));
    if clean.len() == 0 {
        seq!["index.html"@]
    } else {
        seq![clean, clean + "/index.html"@, clean + ".html"@]
    }
}

/// Lists the files that a path can stand for.
pub fn web_asset_candidates(requested_path: &str) -> (r: Vec<String>)
    ensures
        views(r@) == asset_candidates(requested_path@),
{
    let clean = trim_class(requested_path, CharClass::Just('/'));
    let mut out: Vec<String> = Vec::new();
    if clean.as_str().is_empty() {
        out.push("index.html".to_owned());
        assert(views(out@) =~= asset_candidates(requested_path@));
    } else {
        let index = cat(clean.as_str(), "/index.html");
        let page = cat(clean.as_str(), ".html");
        out.push(clean);
        out.push(index);
        out.push(page);
        assert(views(out@) =~= asset_candidates(requested_path@));
    }
    out
}

/// Where a candidate leads once links and dots are followed.
pub struct ResolvedPath {
    pub path: String,
    pub is_file: bool,
}

/// Whether a path lies in a directory, both without links and dots.
pub open spec fn lies_in(base: Seq<char>, path: Seq<char>) -> bool {
    path == base || begins(path, base + "/"@) || (base == "/"@ && begins(path, "/"@))
}

/// Whether a candidate may be served.
pub open spec fn servable(base: Seq<char>, c: Option<ResolvedPath>) -> bool {
    match c {
        Some(p) => p.is_file && lies_in(base, p.path@),
        None => false,
    }
}

/// Picks the first candidate that is a file in `base_dir`; candidates that lead nowhere are
/// `None`.
pub fn resolve_web_asset(base_dir: &str, candidates: &Vec<Option<ResolvedPath>>) -> (r: Option<
    String,
>)
    ensures
        match r {
            Some(path) => exists|i: int|
                0 <= i < candidates@.len() && servable(base_dir@, #[trigger] candidates@[i])
                    && path@ == (candidates@[i]->0).path@ && forall|j: int|
                    0 <= j < i ==> !servable(base_dir@, #[trigger] candidates@[j]),
            None => forall|j: int|
                0 <= j < candidates@.len() ==> !servable(base_dir@, #[trigger] candidates@[j]),
        },
        r matches Some(path) ==> lies_in(base_dir@, path@),
{
    let inside = cat(base_dir, "/");
    let mut i: usize = 0;
    while i < candidates.len()
        invariant
            i <= candidates@.len(),
            inside@ == base_dir@ + "/"@,
            forall|j: int| 0 <= j < i ==> !servable(base_dir@, #[trigger] candidates@[j]),
        decreases candidates@.len() - i,
    {
        match &candidates[i] {
            Some(p) => {
                let path = p.path.as_str();
                if p.is_file && (same(path, base_dir) || starts_with(path, inside.as_str()) || (same(
                    base_dir,
                    "/",
                ) && starts_with(path, "/"))) {
                    assert(servable(base_dir@, candidates@[i as int]));
                    return Some(p.path.clone());
                }
            },
            None => {},
        }
        i += 1;
    }
    None
}

} // verus!
