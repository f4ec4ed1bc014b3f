//! The keys with which users of the server authenticate.
use vstd::prelude::*;
use vstd::utf8::encode_utf8;

use crate::assoc::TextMap;
use crate::clock::Moment;
use crate::codec::base64url_encode;
use crate::digest::{
    ct_eq, hex_text, is_hex, random_bytes, sha256, sha256_hex, short_uuid,
};
use crate::json::{bare_from, non_empty_or};
use crate::naming::{free_name, free_name_for, lemma_free_name_unique};
use crate::text::{
    ascii_lower, cat, has_text, same, to_lower, trim, trimmed, unicode_lower, views,
};
use crate::value::{bare_text, empty_object, list_view, opt_str, or_else, Json, JsonView};

verus! {

broadcast use crate::value::group_json;

/// How long the last use of a key is kept in memory before it is stored again, in seconds.
pub const FLUSH_SECONDS: i64 = 60;

/// A key. Its hash is stored and never shown.
pub struct AuthKeyItem {
    pub id: String,
    pub name: String,
    pub role: String,
    pub key_hash: String,
    pub enabled: bool,
    pub created_at: String,
    pub last_used_at: Option<String>,
}

/// The model of a key.
pub struct KeyView {
    pub id: Seq<char>,
    pub name: Seq<char>,
    pub role: Seq<char>,
    pub key_hash: Seq<char>,
    pub enabled: bool,
    pub created_at: Seq<char>,
    pub last_used_at: Option<Seq<char>>,
}

impl View for AuthKeyItem {
    type V = KeyView;

    open spec fn view(&self) -> KeyView {
        KeyView {
            id: self.id@,
            name: self.name@,
            role: self.role@,
            key_hash: self.key_hash@,
            enabled: self.enabled,
            created_at: self.created_at@,
            last_used_at: match self.last_used_at {
                Some(s) => Some(s@),
                None => None,
            },
        }
    }
}

/// The models of a list of keys.
pub open spec fn keys_view(v: Seq<AuthKeyItem>) -> Seq<KeyView> {
    v.map_values(|k: AuthKeyItem| k@)
}

impl KeyView {
    /// The key as it is shown.
    pub open spec fn shown(self) -> JsonView {
        empty_object().put("id"@, JsonView::Str(self.id)).put("name"@, JsonView::Str(self.name)).put(
            "role"@,
            JsonView::Str(self.role),
        ).put("enabled"@, JsonView::Bool(self.enabled)).put(
            "created_at"@,
            JsonView::Str(self.created_at),
        ).put("last_used_at"@, opt_str(self.last_used_at))
    }

    /// The key as it is stored.
    pub open spec fn stored(self) -> JsonView {
        empty_object().put("id"@, JsonView::Str(self.id)).put("name"@, JsonView::Str(self.name)).put(
            "role"@,
            JsonView::Str(self.role),
        ).put("key_hash"@, JsonView::Str(self.key_hash)).put(
            "enabled"@,
            JsonView::Bool(self.enabled),
        ).put("created_at"@, JsonView::Str(self.created_at)).put(
            "last_used_at"@,
            opt_str(self.last_used_at),
        )
    }
}

impl AuthKeyItem {
    fn duplicate(&self) -> (r: AuthKeyItem)
        ensures
            r@ == self@,
    {
        AuthKeyItem {
            id: self.id.clone(),
            name: self.name.clone(),
            role: self.role.clone(),
            key_hash: self.key_hash.clone(),
            enabled: self.enabled,
            created_at: self.created_at.clone(),
            last_used_at: match &self.last_used_at {
                Some(s) => Some(s.clone()),
                None => None,
            },
        }
    }

    fn last_used(&self) -> (r: Json)
        ensures
            r@ == opt_str(self@.last_used_at),
    {
        match &self.last_used_at {
            Some(s) => Json::from_text(s.as_str()),
            None => Json::Null,
        }
    }

    /// The key as it is stored.
    pub fn to_value(&self) -> (r: Json)
        ensures
            r@ == self@.stored(),
    {
        let mut o = Json::object();
        o.set("id", Json::from_text(self.id.as_str()));
        o.set("name", Json::from_text(self.name.as_str()));
        o.set("role", Json::from_text(self.role.as_str()));
        o.set("key_hash", Json::from_text(self.key_hash.as_str()));
        o.set("enabled", Json::Bool(self.enabled));
        o.set("created_at", Json::from_text(self.created_at.as_str()));
        o.set("last_used_at", self.last_used());
        o
    }

    /// The key as it is shown.
    pub fn public(&self) -> (r: Json)
        ensures
            r@ == self@.shown(),
    {
        let mut o = Json::object();
        o.set("id", Json::from_text(self.id.as_str()));
        o.set("name", Json::from_text(self.name.as_str()));
        o.set("role", Json::from_text(self.role.as_str()));
        o.set("enabled", Json::Bool(self.enabled));
        o.set("created_at", Json::from_text(self.created_at.as_str()));
        o.set("last_used_at", self.last_used());
        o
    }
}

/// The name of a key that was given none.
pub open spec fn name_for_role(role: Seq<char>) -> Seq<char> {
    if unicode_lower(trimmed(role)) == "admin"@ {
        "管理员密钥"@
    } else {
        "普通用户"@
    }
}

/// The name of a key that was given none.
pub fn default_name(role: &str) -> (r: String)
    ensures
        r@ == name_for_role(role@),
{
    if same(to_lower(trim(role).as_str()).as_str(), "admin") {
        "管理员密钥".to_owned()
    } else {
        "普通用户".to_owned()
    }
}

/// The key that a stored record describes: it needs a known role and a hash. `fresh` stands for
/// a missing id, `now` for a missing creation time.
pub open spec fn normal_key(raw: JsonView, fresh: Seq<char>, now: Seq<char>) -> Option<KeyView> {
    let role = unicode_lower(bare_text(raw.at("role"@)));
    let key_hash = bare_text(raw.at("key_hash"@));
    let used = bare_text(raw.at("last_used_at"@));
    if raw is Obj && (role == "admin"@ || role == "user"@) && key_hash.len() > 0 {
        Some(
            KeyView {
                id: or_else(bare_text(raw.at("id"@)), fresh),
                name: or_else(bare_text(raw.at("name"@)), name_for_role(role)),
                role,
                key_hash,
                enabled: raw.bool_at("enabled"@, true),
                created_at: or_else(bare_text(raw.at("created_at"@)), now),
                last_used_at: if used.len() == 0 {
                    None
                } else {
                    Some(used)
                },
            },
        )
    } else {
        None
    }
}

/// Reads a stored record.
pub fn normalize_item(raw: &Json, fresh: &str, now: &str) -> (r: Option<AuthKeyItem>)
    ensures
        match r {
            Some(k) => normal_key(raw@, fresh@, now@) == Some(k@),
            None => normal_key(raw@, fresh@, now@) is None,
        },
{
    if !raw.is_object() {
        return None;
    }
    let role = to_lower(bare_from(&raw.at("role")).as_str());
    if !same(role.as_str(), "admin") && !same(role.as_str(), "user") {
        return None;
    }
    let key_hash = bare_from(&raw.at("key_hash"));
    if key_hash.as_str().is_empty() {
        return None;
    }
    let id = non_empty_or(bare_from(&raw.at("id")), fresh);
    let fallback = default_name(role.as_str());
    let name = non_empty_or(bare_from(&raw.at("name")), fallback.as_str());
    let created_at = non_empty_or(bare_from(&raw.at("created_at")), now);
    let used = bare_from(&raw.at("last_used_at"));
    let last_used_at = if used.as_str().is_empty() {
        None
    } else {
        Some(used)
    };
    let enabled = raw.bool_at("enabled", true);
    Some(AuthKeyItem { id, name, role, key_hash, enabled, created_at, last_used_at })
}

/// The keys that stored records describe, `fresh` holding the ids for those without one.
pub open spec fn normal_keys(raws: Seq<JsonView>, fresh: Seq<Seq<char>>, now: Seq<char>) -> Seq<
    KeyView,
>
    decreases raws.len(),
{
    if raws.len() == 0 || fresh.len() == 0 {
        Seq::empty()
    } else {
        let done = normal_keys(raws.drop_last(), fresh.drop_last(), now);
        match normal_key(raws.last(), fresh.last(), now) {
            Some(k) => done.push(k),
            None => done,
        }
    }
}

/// The hash of a key.
pub open spec fn hashed(raw: Seq<char>) -> Seq<char> {
    hex_text(sha256(encode_utf8(raw)))
}

/// The hash of a key.
pub fn hash_key(value: &str) -> (r: String)
    ensures
        r@ == hashed(value@),
        r@.len() == 64,
{
    sha256_hex(value.as_bytes())
}

/// Whether a key other than that with the id `exclude` has this hash.
pub open spec fn hash_taken(keys: Seq<KeyView>, hash: Seq<char>, exclude: Seq<char>) -> bool {
    exists|i: int|
        0 <= i < keys.len() && (exclude.len() == 0 || (#[trigger] keys[i]).id != exclude)
            && keys[i].key_hash.len() > 0 && keys[i].key_hash == hash
}

/// Why a text cannot be a key: it is empty, it is the administrator's, or it is taken.
pub open spec fn key_fault(
    keys: Seq<KeyView>,
    raw: Seq<char>,
    exclude: Seq<char>,
    admin: Seq<char>,
) -> Option<Seq<char>> {
    let candidate = trimmed(raw);
    if candidate.len() == 0 {
        Some("请输入新的专用密钥"@)
    } else if trimmed(admin).len() > 0 && candidate == trimmed(admin) {
        Some("这个密钥和管理员密钥冲突了，请换一个新的密钥"@)
    } else if hash_taken(keys, hashed(candidate), exclude) {
        Some("这个专用密钥已经存在，请换一个新的密钥"@)
    } else {
        None
    }
}

/// The name of a key of a role, other than that with the id `exclude`.
pub open spec fn role_name(role: Seq<char>, exclude: Seq<char>) -> spec_fn(KeyView) -> Option<
    Seq<char>,
> {
    |k: KeyView|
        if (exclude.len() == 0 || k.id != exclude) && k.role == role {
            Some(k.name)
        } else {
            None
        }
}

/// The names of the keys of a role, without that with the id `exclude`.
pub open spec fn role_names(keys: Seq<KeyView>, role: Seq<char>, exclude: Seq<char>) -> Seq<
    Seq<char>,
> {
    keys.filter_map(role_name(role, exclude))
}

/// The name that a key gets: the one asked for unless it is taken, or a free one where none was
/// asked for.
pub open spec fn name_given(
    keys: Seq<KeyView>,
    name: Seq<char>,
    role: Seq<char>,
    exclude: Seq<char>,
) -> Option<Seq<char>> {
    let taken = role_names(keys, role, exclude);
    if trimmed(name).len() == 0 {
        Some(free_name_for(taken, name_for_role(role), " "@, ""@))
    } else if taken.contains(trimmed(name)) {
        None
    } else {
        Some(trimmed(name))
    }
}

/// The position of the first key with an id, or the number of keys.
pub open spec fn position_of(keys: Seq<KeyView>, id: Seq<char>) -> int
    decreases keys.len(),
{
    if keys.len() == 0 || keys[0].id == id {
        0
    } else {
        1 + position_of(keys.drop_first(), id)
    }
}

/// Whether a key has a role; any will do where none is asked for.
pub open spec fn has_role(k: KeyView, role: Option<Seq<char>>) -> bool {
    match role {
        Some(r) => k.role == r,
        None => true,
    }
}

/// A key after some of its fields were set: a name that is taken, or a key that cannot be one,
/// is refused.
pub open spec fn key_updated(
    keys: Seq<KeyView>,
    k: KeyView,
    updates: JsonView,
    id: Seq<char>,
    admin: Seq<char>,
) -> Option<KeyView> {
    let role = if unicode_lower(trimmed(k.role)) == "admin"@ {
        "admin"@
    } else {
        "user"@
    };
    let name = if updates.at("name"@) is Null {
        Some(k.name)
    } else {
        name_given(keys, bare_text(updates.at("name"@)), role, id)
    };
    let raw = bare_text(updates.at("key"@));
    if name is None {
        None
    } else if updates.at("key"@) is Null {
        Some(
            KeyView { name: name->0, enabled: updates.bool_at("enabled"@, k.enabled), ..k },
        )
    } else if key_fault(keys, raw, id, admin) is Some {
        None
    } else {
        Some(
            KeyView {
                name: name->0,
                enabled: updates.bool_at("enabled"@, k.enabled),
                key_hash: hashed(trimmed(raw)),
                ..k
            },
        )
    }
}

/// Whether a key stays when the key with an id and a role is deleted.
pub open spec fn survives(id: Seq<char>, role: Option<Seq<char>>) -> spec_fn(KeyView) -> bool {
    |k: KeyView| !(k.id == id && has_role(k, role))
}

/// Whether a hash opens a key.
pub open spec fn opened(k: KeyView, hash: Seq<char>) -> bool {
    k.enabled && k.key_hash.len() > 0 && k.key_hash == hash
}

/// The position of the first key that a hash opens, or the number of keys.
pub open spec fn opened_at(keys: Seq<KeyView>, hash: Seq<char>) -> int
    decreases keys.len(),
{
    if keys.len() == 0 || opened(keys[0], hash) {
        0
    } else {
        1 + opened_at(keys.drop_first(), hash)
    }
}

/// The role of an argument that may be missing.
pub open spec fn role_view(role: Option<&str>) -> Option<Seq<char>> {
    match role {
        Some(r) => Some(r@),
        None => None,
    }
}

/// The keys of the server.
pub struct AuthService {
    items: Vec<AuthKeyItem>,
    flushed: TextMap<Moment>,
}

impl AuthService {
    /// The keys, in order.
    pub closed spec fn keys(self) -> Seq<KeyView> {
        keys_view(self.items@)
    }

    /// When the last use of each key was stored.
    pub closed spec fn flushes(self) -> Map<Seq<char>, Moment> {
        self.flushed@
    }

    /// The keys that stored records describe.
    pub fn load(raws: &Vec<Json>, now: &str) -> (r: AuthService)
        ensures
            exists|fresh: Seq<Seq<char>>|
                fresh.len() == raws@.len() && r.keys() == #[trigger] normal_keys(
                    list_view(raws@),
                    fresh,
                    now@,
                ) && forall|i: int| 0 <= i < fresh.len() ==> is_hex(#[trigger] fresh[i], 12),
            r.flushes() == Map::<Seq<char>, Moment>::empty(),
    {
        let mut items: Vec<AuthKeyItem> = Vec::new();
        let mut i: usize = 0;
        let ghost v = list_view(raws@);
        let ghost mut fresh: Seq<Seq<char>> = Seq::empty();
        assert(keys_view(items@) =~= Seq::empty());
        while i < raws.len()
            invariant
                i <= raws@.len(),
                v == list_view(raws@),
                fresh.len() == i,
                forall|k: int| 0 <= k < fresh.len() ==> is_hex(#[trigger] fresh[k], 12),
                keys_view(items@) == normal_keys(v.take(i as int), fresh, now@),
            decreases raws@.len() - i,
        {
            let id = short_uuid();
            let ghost had = fresh;
            proof {
                fresh = fresh.push(id@);
                assert(fresh.drop_last() =~= had);
                assert(v.take(i + 1).drop_last() =~= v.take(i as int));
            }
            let ghost done = keys_view(items@);
            match normalize_item(&raws[i], id.as_str(), now) {
                Some(k) => {
                    let ghost kv = k@;
                    items.push(k);
                    assert(keys_view(items@) =~= done.push(kv));
                },
                None => {},
            }
            i += 1;
        }
        assert(v.take(i as int) =~= v);
        AuthService { items, flushed: TextMap::new() }
    }

    /// Takes the keys in as they are stored now.
    pub fn reload(&mut self, raws: &Vec<Json>, now: &str)
        ensures
            exists|fresh: Seq<Seq<char>>|
                fresh.len() == raws@.len() && final(self).keys() == #[trigger] normal_keys(
                    list_view(raws@),
                    fresh,
                    now@,
                ) && forall|i: int| 0 <= i < fresh.len() ==> is_hex(#[trigger] fresh[i], 12),
            final(self).flushes() == old(self).flushes(),
    {
        let fresh = AuthService::load(raws, now);
        self.items = fresh.items;
    }

    /// The keys as they are stored.
    pub fn to_values(&self) -> (r: Vec<Json>)
        ensures
            list_view(r@) == self.keys().map_values(|k: KeyView| k.stored()),
    {
        let mut out: Vec<Json> = Vec::new();
        let mut i: usize = 0;
        let ghost want = self.keys().map_values(|k: KeyView| k.stored());
        while i < self.items.len()
            invariant
                i <= self.items@.len(),
                want == self.keys().map_values(|k: KeyView| k.stored()),
                list_view(out@) =~= want.take(i as int),
            decreases self.items@.len() - i,
        {
            let ghost done = list_view(out@);
            out.push(self.items[i].to_value());
            assert(list_view(out@) =~= done.push(want[i as int]));
            i += 1;
        }
        assert(list_view(out@) =~= want);
        out
    }

    /// The keys of a role, or all, as they are shown.
    pub fn list_keys(&self, role: Option<&str>) -> (r: Vec<Json>)
        ensures
            list_view(r@) == self.keys().filter_map(shown_of(role_view(role))),
    {
        let mut out: Vec<Json> = Vec::new();
        let mut i: usize = 0;
        let ghost ks = self.keys();
        let ghost f = shown_of(role_view(role));
        assert(ks.take(0).filter_map(f) =~= Seq::empty());
        assert(list_view(out@) =~= Seq::empty());
        while i < self.items.len()
            invariant
                i <= self.items@.len(),
                ks == self.keys(),
                f == shown_of(role_view(role)),
                list_view(out@) == ks.take(i as int).filter_map(f),
            decreases self.items@.len() - i,
        {
            proof {
                ks.lemma_filter_map_take_succ(f, i as int);
            }
            let ghost done = list_view(out@);
            if item_has_role(&self.items[i], role) {
                let shown = self.items[i].public();
                let ghost sv = shown@;
                out.push(shown);
                assert(list_view(out@) =~= done + seq![sv]);
            }
            assert(list_view(out@) =~= ks.take(i + 1).filter_map(f));
            i += 1;
        }
        assert(ks.take(i as int) =~= ks);
        out
    }

    fn has_key_hash(&self, key_hash: &str, exclude_id: &str) -> (r: bool)
        ensures
            r == hash_taken(self.keys(), key_hash@, exclude_id@),
    {
        let ghost ks = self.keys();
        let mut i: usize = 0;
        while i < self.items.len()
            invariant
                i <= self.items@.len(),
                ks == self.keys(),
                forall|j: int|
                    0 <= j < i ==> !((exclude_id@.len() == 0 || (#[trigger] ks[j]).id
                        != exclude_id@) && ks[j].key_hash.len() > 0 && ks[j].key_hash
                        == key_hash@),
            decreases self.items@.len() - i,
        {
            let k = &self.items[i];
            assert(ks[i as int] == k@);
            if (exclude_id.is_empty() || !same(k.id.as_str(), exclude_id))
                && !k.key_hash.as_str().is_empty() && ct_eq(k.key_hash.as_str(), key_hash) {
                return true;
            }
            i += 1;
        }
        false
    }

    /// The hash of a text as a key, or why it cannot be one. `exclude_id` names a key whose hash
    /// does not count as taken.
    pub fn build_key_hash(&self, raw_key: &str, exclude_id: &str, admin_key: &str) -> (r: Result<
        String,
        String,
    >)
        ensures
            match r {
                Ok(h) => key_fault(self.keys(), raw_key@, exclude_id@, admin_key@) is None && h@
                    == hashed(trimmed(raw_key@)),
                Err(e) => key_fault(self.keys(), raw_key@, exclude_id@, admin_key@) == Some(e@),
            },
    {
        let candidate = trim(raw_key);
        if candidate.as_str().is_empty() {
            return Err("请输入新的专用密钥".to_owned());
        }
        let admin = trim(admin_key);
        if !admin.as_str().is_empty() && ct_eq(candidate.as_str(), admin.as_str()) {
            return Err("这个密钥和管理员密钥冲突了，请换一个新的密钥".to_owned());
        }
        let key_hash = hash_key(candidate.as_str());
        if self.has_key_hash(key_hash.as_str(), exclude_id) {
            return Err("这个专用密钥已经存在，请换一个新的密钥".to_owned());
        }
        Ok(key_hash)
    }

    fn names(&self, role: &str, exclude_id: &str) -> (r: Vec<String>)
        ensures
            views(r@) == role_names(self.keys(), role@, exclude_id@),
    {
        let mut out: Vec<String> = Vec::new();
        let mut i: usize = 0;
        let ghost ks = self.keys();
        let ghost f = role_name(role@, exclude_id@);
        assert(ks.take(0).filter_map(f) =~= Seq::empty());
        assert(views(out@) =~= Seq::empty());
        while i < self.items.len()
            invariant
                i <= self.items@.len(),
                ks == self.keys(),
                f == role_name(role@, exclude_id@),
                views(out@) == ks.take(i as int).filter_map(f),
            decreases self.items@.len() - i,
        {
            proof {
                ks.lemma_filter_map_take_succ(f, i as int);
            }
            let ghost done = views(out@);
            let k = &self.items[i];
            assert(ks[i as int] == k@);
            if (exclude_id.is_empty() || !same(k.id.as_str(), exclude_id)) && same(
                k.role.as_str(),
                role,
            ) {
                out.push(k.name.clone());
                assert(views(out@) =~= done + seq![k.name@]);
            }
            assert(views(out@) =~= ks.take(i + 1).filter_map(f));
            i += 1;
        }
        assert(ks.take(i as int) =~= ks);
        out
    }

    /// The name that a key of a role gets, or that it is taken.
    pub fn build_name(&self, name: &str, role: &str, exclude_id: &str) -> (r: Result<
        String,
        String,
    >)
        ensures
            match r {
                Ok(n) => name_given(self.keys(), name@, role@, exclude_id@) == Some(n@),
                Err(e) => name_given(self.keys(), name@, role@, exclude_id@) is None && e@
                    == "这个名称已经在使用中了，换一个更容易区分的名称吧"@,
            },
    {
        let candidate = trim(name);
        let taken = self.names(role, exclude_id);
        if candidate.as_str().is_empty() {
            let base = default_name(role);
            let found = free_name(&taken, base.as_str(), " ", "");
            proof {
                lemma_free_name_unique(views(taken@), base@, " "@, ""@, found@);
            }
            return Ok(found);
        }
        if has_text(&taken, candidate.as_str()) {
            return Err("这个名称已经在使用中了，换一个更容易区分的名称吧".to_owned());
        }
        Ok(candidate)
    }

    /// Adds a key for a role under a name, with a text as the key: the name must be free and the
    /// text fit to be a key. Gives the key as it is shown.
    pub fn create_key(
        &mut self,
        role: &str,
        name: &str,
        raw_key: &str,
        id: &str,
        admin_key: &str,
        now: &str,
    ) -> (r: Result<Json, String>)
        ensures
            final(self).flushes() == old(self).flushes(),
            match name_given(old(self).keys(), name@, role@, Seq::empty()) {
                None => {
                    &&& final(self).keys() == old(self).keys()
                    &&& r matches Err(e) && e@
                        == "这个名称已经在使用中了，换一个更容易区分的名称吧"@
                },
                Some(n) => match key_fault(old(self).keys(), raw_key@, Seq::empty(), admin_key@) {
                    Some(fault) => {
                        &&& final(self).keys() == old(self).keys()
                        &&& r matches Err(e) && e@ == fault
                    },
                    None => {
                        let k = new_key(id@, n, role@, raw_key@, now@);
                        &&& final(self).keys() == old(self).keys().push(k)
                        &&& r matches Ok(v) && v@ == k.shown()
                    },
                },
            },
            r is Ok ==> {
                let k = final(self).keys().last();
                &&& final(self).keys().len() == old(self).keys().len() + 1
                &&& k.enabled && k.role == role@ && k.id == id@ && k.created_at == now@
                &&& k.key_hash == hashed(trimmed(raw_key@))
                &&& trimmed(raw_key@).len() > 0
                &&& trimmed(name@).len() > 0 ==> k.name == trimmed(name@)
            },
            r is Err ==> final(self).keys() == old(self).keys(),
    {
        let normalized_name = match self.build_name(name, role, "") {
            Ok(n) => n,
            Err(e) => {
                proof {
                    reveal_strlit("");
                    assert(""@ =~= Seq::empty());
                }
                return Err(e);
            },
        };
        proof {
            reveal_strlit("");
            assert(""@ =~= Seq::empty());
        }
        let key_hash = match self.build_key_hash(raw_key, "", admin_key) {
            Ok(h) => h,
            Err(e) => {
                return Err(e);
            },
        };
        let item = AuthKeyItem {
            id: id.to_owned(),
            name: normalized_name,
            role: role.to_owned(),
            key_hash,
            enabled: true,
            created_at: now.to_owned(),
            last_used_at: None,
        };
        let shown = item.public();
        let ghost before = keys_view(self.items@);
        let ghost kv = item@;
        self.items.push(item);
        assert(keys_view(self.items@) =~= before.push(kv));
        Ok(shown)
    }

    fn find(&self, id: &str) -> (r: usize)
        ensures
            r == position_of(self.keys(), id@),
            r <= self.keys().len(),
            r < self.keys().len() ==> self.keys()[r as int].id == id@,
    {
        let ghost ks = self.keys();
        let mut i: usize = 0;
        assert(ks.skip(0) =~= ks);
        while i < self.items.len() && !same(self.items[i].id.as_str(), id)
            invariant
                i <= self.items@.len(),
                ks == self.keys(),
                position_of(ks, id@) == i + position_of(ks.skip(i as int), id@),
            ensures
                i <= self.items@.len(),
                ks == self.keys(),
                position_of(ks, id@) == i + position_of(ks.skip(i as int), id@),
                i < self.items@.len() ==> ks[i as int].id == id@,
            decreases self.items@.len() - i,
        {
            assert(ks.skip(i as int).drop_first() =~= ks.skip(i + 1));
            i += 1;
        }
        i
    }

    /// Sets the name, the state or the text of the key with an id. Gives the key as it is
    /// shown, or nothing where there is no such key or the change is refused.
    pub fn update_key(&mut self, key_id: &str, updates: &Json, role: Option<&str>, admin_key: &str) -> (
    r: Option<Json>)
        ensures
            final(self).flushes() == old(self).flushes(),
            ({
                let ks = old(self).keys();
                let id = trimmed(key_id@);
                let i = position_of(ks, id);
                let next = key_updated(ks, ks[i], updates@, id, admin_key@);
                if id.len() > 0 && i < ks.len() && has_role(ks[i], role_view(role)) && next
                    is Some {
                    &&& final(self).keys() == ks.update(i, next->0)
                    &&& r matches Some(v) && v@ == (next->0).shown()
                } else {
                    final(self).keys() == ks && r is None
                }
            }),
    {
        let id = trim(key_id);
        if id.as_str().is_empty() {
            return None;
        }
        let i = self.find(id.as_str());
        let ghost ks = self.keys();
        if i >= self.items.len() {
            return None;
        }
        if !item_has_role(&self.items[i], role) {
            return None;
        }
        let mut next = self.items[i].duplicate();
        let next_role = if same(to_lower(trim(next.role.as_str()).as_str()).as_str(), "admin") {
            "admin"
        } else {
            "user"
        };
        let name = updates.at("name");
        if !name.is_null() {
            match self.build_name(bare_from(&name).as_str(), next_role, id.as_str()) {
                Ok(n) => {
                    next.name = n;
                },
                Err(_) => {
                    return None;
                },
            }
        }
        next.enabled = updates.bool_at("enabled", next.enabled);
        let key = updates.at("key");
        if !key.is_null() {
            match self.build_key_hash(bare_from(&key).as_str(), id.as_str(), admin_key) {
                Ok(h) => {
                    next.key_hash = h;
                },
                Err(_) => {
                    return None;
                },
            }
        }
        let shown = next.public();
        let ghost nv = next@;
        self.items[i] = next;
        assert(keys_view(self.items@) =~= ks.update(i as int, nv));
        Some(shown)
    }

    /// Deletes the key with an id, where it has the role asked for, and tells whether there was
    /// one.
    pub fn delete_key(&mut self, key_id: &str, role: Option<&str>) -> (r: bool)
        ensures
            final(self).flushes() == old(self).flushes(),
            ({
                let id = trimmed(key_id@);
                let kept = old(self).keys().filter(survives(id, role_view(role)));
                if id.len() == 0 {
                    final(self).keys() == old(self).keys() && !r
                } else {
                    &&& final(self).keys() == kept
                    &&& r == (kept.len() < old(self).keys().len())
                }
            }),
            forall|k: KeyView| #[trigger]
                final(self).keys().contains(k) ==> old(self).keys().contains(k) && (trimmed(
                    key_id@,
                ).len() > 0 && k.id == trimmed(key_id@) ==> (role matches Some(x) && k.role != x@)),
            forall|k: KeyView| #[trigger]
                old(self).keys().contains(k) && k.id != trimmed(key_id@)
                    ==> final(self).keys().contains(k),
    {
        let id = trim(key_id);
        if id.as_str().is_empty() {
            return false;
        }
        let ghost ks = self.keys();
        let ghost keep = survives(id@, role_view(role));
        let before = self.items.len();
        let mut kept: Vec<AuthKeyItem> = Vec::new();
        let mut i: usize = 0;
        proof {
            reveal(Seq::filter);
            assert(keys_view(kept@) =~= ks.take(0).filter(keep));
        }
        while i < self.items.len()
            invariant
                kept@.len() <= i <= self.items@.len(),
                ks == self.keys(),
                self.items@ == old(self).items@,
                self.flushed == old(self).flushed,
                keep == survives(id@, role_view(role)),
                keys_view(kept@) == ks.take(i as int).filter(keep),
            decreases self.items@.len() - i,
        {
            let ghost done = keys_view(kept@);
            assert(ks.take(i + 1).drop_last() =~= ks.take(i as int));
            assert(ks.take(i + 1).filter(keep) == if keep(ks[i as int]) {
                done.push(ks[i as int])
            } else {
                done
            }) by {
                reveal(Seq::filter);
            }
            let k = &self.items[i];
            assert(ks[i as int] == k@);
            if !(same(k.id.as_str(), id.as_str()) && item_has_role(k, role)) {
                kept.push(k.duplicate());
                assert(keys_view(kept@) =~= done.push(ks[i as int]));
            }
            i += 1;
        }
        assert(ks.take(i as int) =~= ks);
        proof {
            assert forall|k: KeyView| #[trigger] ks.filter(keep).contains(k) <==> ks.contains(k)
                && keep(k) by {
                crate::lists::lemma_filtered_has(ks, keep, k);
            }
        }
        self.items = kept;
        assert(self.keys().len() == self.items@.len());
        self.items.len() != before
    }

    /// Finds the enabled key that a text is, and notes its use. Gives the key as it is shown,
    /// and whether the note is to be stored: not where it was within the last minute.
    pub fn authenticate(&mut self, raw_key: &str, time: Moment, at: &str) -> (r: Option<(Json, bool)>)
        ensures
            final(self).flushes() == old(self).flushes(),
            ({
                let ks = old(self).keys();
                let candidate = trimmed(raw_key@);
                let i = opened_at(ks, hashed(candidate));
                if candidate.len() > 0 && i < ks.len() {
                    let k = KeyView { last_used_at: Some(at@), ..ks[i] };
                    &&& final(self).keys() == ks.update(i, k)
                    &&& r matches Some(p) && p.0@ == k.shown() && p.1 == (
                    !old(self).flushes().dom().contains(k.id) || !time.within(
                        old(self).flushes()[k.id],
                        FLUSH_SECONDS as int,
                    ))
                } else {
                    final(self).keys() == ks && r is None
                }
            }),
    {
        let candidate = trim(raw_key);
        if candidate.as_str().is_empty() {
            return None;
        }
        let hash = hash_key(candidate.as_str());
        let ghost ks = self.keys();
        let mut i: usize = 0;
        assert(ks.skip(0) =~= ks);
        while i < self.items.len() && !(self.items[i].enabled
            && !self.items[i].key_hash.as_str().is_empty() && ct_eq(
            self.items[i].key_hash.as_str(),
            hash.as_str(),
        ))
            invariant
                i <= self.items@.len(),
                ks == self.keys(),
                self.items@ == old(self).items@,
                self.flushed == old(self).flushed,
                opened_at(ks, hash@) == i + opened_at(ks.skip(i as int), hash@),
            ensures
                i <= self.items@.len(),
                ks == self.keys(),
                self.items@ == old(self).items@,
                self.flushed == old(self).flushed,
                opened_at(ks, hash@) == i + opened_at(ks.skip(i as int), hash@),
                i < self.items@.len() ==> opened(ks[i as int], hash@),
            decreases self.items@.len() - i,
        {
            assert(ks.skip(i as int).drop_first() =~= ks.skip(i + 1));
            assert(ks[i as int] == self.items@[i as int]@);
            i += 1;
        }
        if i >= self.items.len() {
            return None;
        }
        let mut item = self.items[i].duplicate();
        item.last_used_at = Some(at.to_owned());
        let shown = item.public();
        let flush = match self.flushed.get(item.id.as_str()) {
            Some(last) => !time.is_within(*last, FLUSH_SECONDS),
            None => true,
        };
        let ghost kv = item@;
        self.items[i] = item;
        assert(keys_view(self.items@) =~= ks.update(i as int, kv));
        Some((shown, flush))
    }

    /// Notes that the last use of the key with an id was stored.
    pub fn mark_flushed(&mut self, id: &str, time: Moment)
        ensures
            final(self).keys() == old(self).keys(),
            final(self).flushes() == old(self).flushes().insert(id@, time),
    {
        self.flushed.set(id, time);
    }
}

/// A key of a role as it is shown.
pub open spec fn shown_of(role: Option<Seq<char>>) -> spec_fn(KeyView) -> Option<JsonView> {
    |k: KeyView|
        if has_role(k, role) {
            Some(k.shown())
        } else {
            None
        }
}

fn item_has_role(k: &AuthKeyItem, role: Option<&str>) -> (r: bool)
    ensures
        r == has_role(k@, role_view(role)),
{
    match role {
        Some(r) => same(k.role.as_str(), r),
        None => true,
    }
}

/// A key that was just made.
pub open spec fn new_key(
    id: Seq<char>,
    name: Seq<char>,
    role: Seq<char>,
    raw: Seq<char>,
    now: Seq<char>,
) -> KeyView {
    KeyView {
        id,
        name,
        role,
        key_hash: hashed(trimmed(raw)),
        enabled: true,
        created_at: now,
        last_used_at: None,
    }
}

/// A random text: `n` random bytes in URL base64.
pub fn token_urlsafe(n: usize) -> (r: String)
    ensures
        exists|b: Seq<u8>| b.len() == n && r@ == #[trigger] crate::codec::base64url_text(b),
{
    let b = random_bytes(n);
    base64url_encode(b.as_slice())
}

/// A random text to be used as a key: `sk-` and 24 random bytes in URL base64.
pub fn random_key() -> (r: String)
    ensures
        exists|b: Seq<u8>|
            b.len() == 24 && r@ == "sk-"@ + #[trigger] crate::codec::base64url_text(b),
{
    let tail = token_urlsafe(24);
    cat("sk-", tail.as_str())
}

// ---------------------------------------------------------------------------
// laws
// ---------------------------------------------------------------------------

/// A key that was just made opens, unless an enabled key before it opens with the same text.
pub proof fn law_created_key_opens(keys: Seq<KeyView>, k: KeyView, hash: Seq<char>)
    requires
        opened(k, hash),
        !hash_taken(keys, hash, Seq::empty()),
    ensures
        opened_at(keys.push(k), hash) == keys.len(),
    decreases keys.len(),
{
    let all = keys.push(k);
    if keys.len() == 0 {
    } else {
        assert(all[0] == keys[0]);
        assert(!opened(keys[0], hash));
        let rest = keys.drop_first();
        assert(all.drop_first() =~= rest.push(k));
        assert(!hash_taken(rest, hash, Seq::empty())) by {
            if hash_taken(rest, hash, Seq::empty()) {
                let i = choose|i: int|
                    0 <= i < rest.len() && (Seq::<char>::empty().len() == 0 || (
                    #[trigger] rest[i]).id != Seq::<char>::empty()) && rest[i].key_hash.len() > 0
                        && rest[i].key_hash == hash;
                assert(keys[i + 1].key_hash == hash);
            }
        }
        law_created_key_opens(rest, k, hash);
    }
}

/// A key that is shown does not give its hash away.
pub proof fn law_hash_not_shown(k: KeyView)
    ensures
        k.shown().get("key_hash"@) is None,
{
    broadcast use crate::value::group_fields;

    reveal_strlit("key_hash");
    reveal_strlit("id");
    reveal_strlit("name");
    reveal_strlit("role");
    reveal_strlit("enabled");
    reveal_strlit("created_at");
    reveal_strlit("last_used_at");
    assert("key_hash"@.len() == 8);
    assert("id"@.len() == 2);
    assert("name"@.len() == 4);
    assert("role"@.len() == 4);
    assert("enabled"@.len() == 7);
    assert("created_at"@.len() == 10);
    assert("last_used_at"@.len() == 12);
}

/// Whether a key can be stored and read back: it has a known role, a hash, an id, a name and a
/// time, and no white space round them.
pub open spec fn settled(k: KeyView) -> bool {
    &&& k.role == "admin"@ || k.role == "user"@
    &&& k.id.len() > 0 && trimmed(k.id) == k.id
    &&& k.name.len() > 0 && trimmed(k.name) == k.name
    &&& k.key_hash.len() > 0 && trimmed(k.key_hash) == k.key_hash
    &&& k.created_at.len() > 0 && trimmed(k.created_at) == k.created_at
    &&& k.last_used_at matches Some(t) ==> t.len() > 0 && trimmed(t) == t
}

proof fn lemma_role_kept()
    ensures
        unicode_lower(trimmed("admin"@)) == "admin"@,
        unicode_lower(trimmed("user"@)) == "user"@,
{
    reveal_strlit("admin");
    reveal_strlit("user");
    assert("admin"@.len() == 5 && "user"@.len() == 4);
    assert("admin"@[0] == 'a' && "admin"@.last() == 'n');
    assert("user"@[0] == 'u' && "user"@.last() == 'r');
    assert(ascii_lower("admin"@) =~= "admin"@);
    assert(ascii_lower("user"@) =~= "user"@);
}

/// A key that was stored is read back as it was.
pub proof fn law_stored_key_read_back(k: KeyView, fresh: Seq<char>, now: Seq<char>)
    requires
        settled(k),
    ensures
        normal_key(k.stored(), fresh, now) == Some(k),
{
    broadcast use crate::value::group_fields;

    lemma_role_kept();
    reveal_strlit("key_hash");
    reveal_strlit("id");
    reveal_strlit("name");
    reveal_strlit("role");
    reveal_strlit("enabled");
    reveal_strlit("created_at");
    reveal_strlit("last_used_at");
    assert("key_hash"@.len() == 8);
    assert("id"@.len() == 2);
    assert("name"@.len() == 4 && "name"@[0] == 'n');
    assert("role"@.len() == 4 && "role"@[0] == 'r');
    assert("enabled"@.len() == 7);
    assert("created_at"@.len() == 10);
    assert("last_used_at"@.len() == 12);
    let raw = k.stored();
    assert(raw.at("role"@) == JsonView::Str(k.role));
    assert(raw.at("id"@) == JsonView::Str(k.id));
    assert(raw.at("name"@) == JsonView::Str(k.name));
    assert(raw.at("key_hash"@) == JsonView::Str(k.key_hash));
    assert(raw.at("created_at"@) == JsonView::Str(k.created_at));
    assert(raw.at("last_used_at"@) == opt_str(k.last_used_at));
    assert(raw.bool_at("enabled"@, true) == k.enabled);
}

/// Only an enabled key with its hash opens, and if none opens there is none.
pub proof fn law_only_enabled_opens(keys: Seq<KeyView>, hash: Seq<char>)
    ensures
        0 <= opened_at(keys, hash) <= keys.len(),
        opened_at(keys, hash) < keys.len() ==> {
            let k = keys[opened_at(keys, hash)];
            k.enabled && k.key_hash == hash && hash.len() > 0
        },
        opened_at(keys, hash) == keys.len() ==> forall|i: int|
            0 <= i < keys.len() ==> !opened(#[trigger] keys[i], hash),
    decreases keys.len(),
{
    if keys.len() > 0 && !opened(keys[0], hash) {
        let rest = keys.drop_first();
        law_only_enabled_opens(rest, hash);
        if opened_at(keys, hash) == keys.len() {
            assert forall|i: int| 0 <= i < keys.len() implies !opened(#[trigger] keys[i], hash) by {
                if i > 0 {
                    assert(rest[i - 1] == keys[i]);
                }
            }
        }
    }
}

/// A key that was deleted opens no more.
pub proof fn law_deleted_key_closed(keys: Seq<KeyView>, id: Seq<char>, hash: Seq<char>)
    ensures
        ({
            let kept = keys.filter(survives(id, None));
            opened_at(kept, hash) < kept.len() ==> kept[opened_at(kept, hash)].id != id
        }),
{
    broadcast use vstd::seq_lib::group_filter_ensures;

    let kept = keys.filter(survives(id, None));
    law_only_enabled_opens(kept, hash);
    if opened_at(kept, hash) < kept.len() {
        assert(survives(id, None)(kept[opened_at(kept, hash)]));
    }
}

/// Whether no two keys have the same hash.
pub open spec fn distinct_hashes(keys: Seq<KeyView>) -> bool {
    forall|i: int, j: int|
        0 <= i < j < keys.len() && (#[trigger] keys[i]).key_hash.len() > 0 ==> keys[i].key_hash != (
        #[trigger] keys[j]).key_hash
}

/// Creating a key keeps the hashes of keys apart.
pub proof fn law_created_hash_differs(keys: Seq<KeyView>, k: KeyView)
    requires
        distinct_hashes(keys),
        !hash_taken(keys, k.key_hash, Seq::empty()),
    ensures
        distinct_hashes(keys.push(k)),
{
    let all = keys.push(k);
    assert forall|i: int, j: int|
        0 <= i < j < all.len() && (#[trigger] all[i]).key_hash.len() > 0 implies all[i].key_hash != (
    #[trigger] all[j]).key_hash by {
        assert(all[i] == keys[i]);
        if j < keys.len() {
            assert(all[j] == keys[j]);
        }
    }
}

/// Changing a key keeps the hashes of keys apart, where no other key has its id.
pub proof fn law_updated_hash_differs(
    keys: Seq<KeyView>,
    at: int,
    updates: JsonView,
    admin: Seq<char>,
)
    requires
        distinct_hashes(keys),
        0 <= at < keys.len(),
        keys[at].id.len() > 0,
        forall|i: int| 0 <= i < keys.len() && i != at ==> (#[trigger] keys[i]).id != keys[at].id,
        key_updated(keys, keys[at], updates, keys[at].id, admin) is Some,
    ensures
        distinct_hashes(
            keys.update(at, key_updated(keys, keys[at], updates, keys[at].id, admin)->0),
        ),
{
    let k = key_updated(keys, keys[at], updates, keys[at].id, admin)->0;
    let all = keys.update(at, k);
    assert forall|i: int, j: int|
        0 <= i < j < all.len() && (#[trigger] all[i]).key_hash.len() > 0 implies all[i].key_hash != (
    #[trigger] all[j]).key_hash by {
        if i != at {
            assert(all[i] == keys[i]);
        }
        if j != at {
            assert(all[j] == keys[j]);
        }
    }
}

proof fn lemma_kept_from(s: Seq<KeyView>, keep: spec_fn(KeyView) -> bool, i: int)
    requires
        0 <= i < s.filter(keep).len(),
    ensures
        s.contains(s.filter(keep)[i]),
    decreases s.len(),
{
    reveal(Seq::filter);
    if s.len() > 0 {
        let init = s.drop_last();
        if i < init.filter(keep).len() {
            lemma_kept_from(init, keep, i);
            let j = init.index_of(init.filter(keep)[i]);
            assert(s[j] == s.filter(keep)[i]);
        } else {
            assert(s[s.len() - 1] == s.filter(keep)[i]);
        }
    }
}

proof fn lemma_closed(keys: Seq<KeyView>, hash: Seq<char>)
    requires
        forall|i: int| 0 <= i < keys.len() ==> !opened(#[trigger] keys[i], hash),
    ensures
        opened_at(keys, hash) == keys.len(),
    decreases keys.len(),
{
    if keys.len() > 0 {
        let rest = keys.drop_first();
        assert forall|i: int| 0 <= i < rest.len() implies !opened(#[trigger] rest[i], hash) by {
            assert(rest[i] == keys[i + 1]);
        }
        lemma_closed(rest, hash);
    }
}

proof fn lemma_position_last(keys: Seq<KeyView>, id: Seq<char>)
    requires
        keys.len() > 0,
        keys.last().id == id,
        forall|i: int| 0 <= i < keys.len() - 1 ==> (#[trigger] keys[i]).id != id,
    ensures
        position_of(keys, id) == keys.len() - 1,
    decreases keys.len(),
{
    if keys.len() > 1 {
        let rest = keys.drop_first();
        assert(keys[0].id != id);
        assert forall|i: int| 0 <= i < rest.len() - 1 implies (#[trigger] rest[i]).id != id by {
            assert(rest[i] == keys[i + 1]);
        }
        lemma_position_last(rest, id);
    }
}

/// A key that was made opens with its text, whether it was used before or not, and is shown with
/// its id, its name, its role and the time of its use, but not its hash; once it is disabled, or
/// deleted, its text opens nothing. Its id is its own, and hashes have their 64 digits.
pub proof fn law_key_opens_until_closed(
    keys: Seq<KeyView>,
    id: Seq<char>,
    name: Seq<char>,
    role: Seq<char>,
    raw: Seq<char>,
    admin: Seq<char>,
    now: Seq<char>,
    used: Option<Seq<char>>,
    at: Seq<char>,
)
    requires
        key_fault(keys, raw, Seq::empty(), admin) is None,
        id.len() > 0,
        forall|i: int| 0 <= i < keys.len() ==> (#[trigger] keys[i]).id != id,
        hashed(trimmed(raw)).len() == 64,
    ensures
        ({
            let hash = hashed(trimmed(raw));
            let k = KeyView { last_used_at: used, ..new_key(id, name, role, raw, now) };
            let all = keys.push(k);
            let shown = KeyView { last_used_at: Some(at), ..k }.shown();
            let off = empty_object().put("enabled"@, JsonView::Bool(false));
            let disabled = key_updated(all, k, off, id, admin);
            let kept = all.filter(survives(id, None));
            &&& trimmed(raw).len() > 0
            &&& opened_at(all, hash) == keys.len()
            &&& shown.str_at("id"@) == id
            &&& shown.str_at("name"@) == name
            &&& shown.str_at("role"@) == role
            &&& shown.get("last_used_at"@) == Some(JsonView::Str(at))
            &&& shown.get("key_hash"@) is None
            &&& position_of(all, id) == keys.len()
            &&& disabled == Some(KeyView { enabled: false, ..k })
            &&& opened_at(all.update(keys.len() as int, disabled->0), hash) == all.len()
            &&& opened_at(kept, hash) == kept.len()
        }),
{
    broadcast use crate::value::group_fields;
    broadcast use vstd::seq_lib::group_filter_ensures;

    let hash = hashed(trimmed(raw));
    let k = KeyView { last_used_at: used, ..new_key(id, name, role, raw, now) };
    let all = keys.push(k);
    law_created_key_opens(keys, k, hash);
    law_hash_not_shown(KeyView { last_used_at: Some(at), ..k });
    lemma_position_last(all, id);
    reveal_strlit("id");
    reveal_strlit("name");
    reveal_strlit("role");
    reveal_strlit("enabled");
    reveal_strlit("created_at");
    reveal_strlit("last_used_at");
    reveal_strlit("key");
    assert("id"@.len() == 2);
    assert("name"@.len() == 4 && "name"@[0] == 'n');
    assert("role"@.len() == 4 && "role"@[0] == 'r');
    assert("enabled"@.len() == 7);
    assert("created_at"@.len() == 10);
    assert("last_used_at"@.len() == 12);
    assert("key"@.len() == 3);
    let off = empty_object().put("enabled"@, JsonView::Bool(false));
    assert(off.get("enabled"@) == Some(JsonView::Bool(false)));
    assert(empty_object().get("name"@) is None && empty_object().get("key"@) is None);
    assert(off.get("name"@) is None && off.get("key"@) is None);
    let closed = all.update(keys.len() as int, KeyView { enabled: false, ..k });
    assert forall|i: int| 0 <= i < closed.len() implies !opened(#[trigger] closed[i], hash) by {
        if i < keys.len() {
            assert(closed[i] == keys[i]);
            assert(!hash_taken(keys, hash, Seq::empty()));
        }
    }
    lemma_closed(closed, hash);
    let keep = survives(id, None);
    let kept = all.filter(keep);
    assert forall|i: int| 0 <= i < kept.len() implies !opened(#[trigger] kept[i], hash) by {
        assert(keep(kept[i]));
        lemma_kept_from(all, keep, i);
        let j = choose|j: int| 0 <= j < all.len() && all[j] == kept[i];
        assert(j < keys.len());
        assert(keys[j] == kept[i]);
        assert(!hash_taken(keys, hash, Seq::empty()));
    }
    lemma_closed(kept, hash);
}

} // verus!
