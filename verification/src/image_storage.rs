//! Where images are kept: the index of what is stored, locally and on a WebDAV server.
use vstd::prelude::*;
use vstd::string::StringExecFns;

use crate::assoc::{
    lemma_lookup_found, lemma_lookup_put, lemma_place, lemma_pulled, lemma_put_at, lookup, names_of,
    place, pulled, put_entry,
};
use crate::codec::{base64_encode, base64_text};
use crate::content_filter::field_position;
use crate::digest::{hex_text, sha256, sha256_hex};
use crate::error::{message_detail, AppError};
use crate::image_paths::{
    date_prefix, day_prefix, file_name, image_path, is_image_rel, safe_path, safe_relative_path,
};
use crate::image_tags::lemma_lookup_at;
use crate::json::{field_names, non_empty_or, remove_field, set_field};
use crate::sorting::{newest_order, sort_newest, sorted};
use crate::text::{
    before, cat, cat3, decimal, decimal_text, has_text, int_text, join, joined, last_piece, pieces,
    precedes, same, signed_text, skip_back, split, starts_with, strip, trim, trim_back, trim_class,
    trimmed, views, CharClass,
};
use crate::urlcode::{encode_segment, encoded};
use crate::value::{
    count_json, empty_object, fields_view, list_view, or_else, Json, JsonView,
};

verus! {

broadcast use crate::value::group_json;

/// An image that was stored.
pub struct StoredImage {
    pub rel: String,
    pub url: String,
    pub storage: String,
    pub size: usize,
}

/// What kind of image some bytes are.
#[derive(Clone, Copy, PartialEq, Eq, Structural)]
pub enum ImageKind {
    Png,
    Jpeg,
    Webp,
    Gif,
    Bmp,
    Other,
}

/// What kind of image some bytes begin as.
pub uninterp spec fn image_kind(bytes: Seq<u8>) -> ImageKind;

/// Calls `imagesize::image_type`. Claims that the kind depends on the bytes alone.
#[verifier::external_body]
pub(crate) fn detect_kind(bytes: &[u8]) -> (r: ImageKind)
    ensures
        r == image_kind(bytes@),
{
    match imagesize::image_type(bytes) {
        Ok(imagesize::ImageType::Png) => ImageKind::Png,
        Ok(imagesize::ImageType::Jpeg) => ImageKind::Jpeg,
        Ok(imagesize::ImageType::Webp) => ImageKind::Webp,
        Ok(imagesize::ImageType::Gif) => ImageKind::Gif,
        Ok(imagesize::ImageType::Bmp) => ImageKind::Bmp,
        _ => ImageKind::Other,
    }
}

/// The width and the height of an image, where they can be read.
pub uninterp spec fn image_size(bytes: Seq<u8>) -> Option<(usize, usize)>;

/// Calls `imagesize::blob_size`. Claims that the outcome depends on the bytes alone.
#[verifier::external_body]
pub(crate) fn measure(bytes: &[u8]) -> (r: Option<(usize, usize)>)
    ensures
        r == image_size(bytes@),
{
    imagesize::blob_size(bytes).ok().map(|s| (s.width, s.height))
}

/// The suffix for a kind of image.
pub open spec fn kind_suffix(k: ImageKind) -> Seq<char> {
    match k {
        ImageKind::Jpeg => "jpg"@,
        ImageKind::Webp => "webp"@,
        _ => "png"@,
    }
}

/// The suffix for an image.
pub fn ext_from_type(data: &[u8]) -> (r: &'static str)
    ensures
        r@ == kind_suffix(image_kind(data@)),
{
    match detect_kind(data) {
        ImageKind::Jpeg => "jpg",
        ImageKind::Webp => "webp",
        _ => "png",
    }
}

/// The path of a new image: the day, the second and the digest of its bytes.
pub fn make_relative_path(image_data: &[u8], day: &str, second: i64) -> (r: String)
    ensures
        r@ == day@ + "/"@ + int_text(second as int) + "_"@ + hex_text(sha256(image_data@)) + "."@
            + kind_suffix(image_kind(image_data@)),
{
    let mut s = cat3(day, "/", signed_text(second).as_str());
    s.append("_");
    s.append(sha256_hex(image_data).as_str());
    s.append(".");
    s.append(ext_from_type(image_data));
    s
}

/// The entry `o` with the dimensions of an image, where they can be read.
pub open spec fn with_size(o: JsonView, size: Option<(usize, usize)>) -> JsonView {
    match size {
        Some((w, h)) => o.put("width"@, count_json(w as nat)).put("height"@, count_json(h as nat)),
        None => o,
    }
}

fn dims_into(item: &mut Json, data: &[u8])
    ensures
        final(item)@ == with_size(old(item)@, image_size(data@)),
{
    match measure(data) {
        Some((w, h)) => {
            item.set("width", Json::from_count(w));
            item.set("height", Json::from_count(h));
        },
        None => {},
    }
}

/// Where an image is, in one word.
pub open spec fn storage_word(local: bool, webdav: bool) -> Seq<char> {
    if local && webdav {
        "both"@
    } else if webdav {
        "webdav"@
    } else {
        "local"@
    }
}

/// Where an image is, in one word.
pub fn storage_label(local: bool, webdav: bool) -> (r: &'static str)
    ensures
        r@ == storage_word(local, webdav),
{
    if local && webdav {
        "both"
    } else if webdav {
        "webdav"
    } else {
        "local"
    }
}

/// Whether a mode stores locally, and whether it stores on the server; an unknown one stores
/// locally.
pub fn storage_targets(mode: &str) -> (r: (bool, bool))
    ensures
        r.0 == (mode@ != "webdav"@),
        r.1 == (mode@ == "webdav"@ || mode@ == "both"@),
{
    (!same(mode, "webdav"), same(mode, "webdav") || same(mode, "both"))
}

/// The public address of an image.
pub open spec fn image_url(
    safe: Seq<char>,
    public_base: Seq<char>,
    base: Seq<char>,
    default_base: Seq<char>,
) -> Seq<char> {
    if public_base.len() > 0 {
        skip_back(public_base, CharClass::Just('/')) + "/"@ + safe
    } else {
        skip_back(or_else(trimmed(base), default_base), CharClass::Just('/')) + "/images/"@ + safe
    }
}

/// The public address of an image: below the public address of the storage where there is one,
/// else below that of the request or of the server.
pub fn public_url(rel: &str, settings: &Json, base_url: &str, default_base: &str) -> (r: Result<
    String,
    AppError,
>)
    ensures
        match safe_path(rel@) {
            Some(safe) => r matches Ok(u) && u@ == image_url(
                safe,
                trimmed(settings@.str_at("public_base_url"@)),
                base_url@,
                default_base@,
            ),
            None => r matches Err(e) && e.is_plain(404, message_detail("image not found"@)),
        },
{
    let safe = match safe_relative_path(rel) {
        Ok(s) => s,
        Err(e) => {
            return Err(e);
        },
    };
    let public = trim(settings.str_at("public_base_url").as_str());
    if !public.as_str().is_empty() {
        return Ok(
            cat3(trim_back(public.as_str(), CharClass::Just('/')).as_str(), "/", safe.as_str()),
        );
    }
    let base = non_empty_or(trim(base_url), default_base);
    Ok(cat3(trim_back(base.as_str(), CharClass::Just('/')).as_str(), "/images/", safe.as_str()))
}

// ---------------------------------------------------------------------------
// the index
// ---------------------------------------------------------------------------

/// The entry of an image that was just stored.
pub open spec fn stored_entry(
    rel: Seq<char>,
    size: nat,
    created_at: Seq<char>,
    local: bool,
    webdav: bool,
    remote_url: Seq<char>,
    dims: Option<(usize, usize)>,
) -> JsonView {
    with_size(
        empty_object().put("rel"@, JsonView::Str(rel)).put("path"@, JsonView::Str(rel)).put(
            "name"@,
            JsonView::Str(last_piece(rel, '/')),
        ).put("date"@, JsonView::Str(day_prefix(rel))).put("size"@, count_json(size)).put(
            "created_at"@,
            JsonView::Str(created_at),
        ).put("storage"@, JsonView::Str(storage_word(local, webdav))).put(
            "local"@,
            JsonView::Bool(local),
        ).put("webdav"@, JsonView::Bool(webdav)).put("remote_url"@, JsonView::Str(remote_url)),
        dims,
    )
}

/// A file that was found in the directory of images.
pub struct FoundFile {
    pub name: String,
    pub rel: String,
    pub data: Vec<u8>,
    pub size: u64,
    /// The day on which it was changed.
    pub day: String,
    /// The time at which it was changed.
    pub created_at: String,
}

/// The day of a file: by its path where that is deep enough, else by its time.
pub open spec fn file_day(rel: Seq<char>, day: Seq<char>) -> Seq<char> {
    if pieces(rel, '/').len() >= 4 {
        day_prefix(rel)
    } else {
        day
    }
}

fn day_of(rel: &str, day: &str) -> (r: String)
    ensures
        r@ == file_day(rel@, day@),
{
    let parts = split(rel, '/');
    assert(views(parts@).len() == parts@.len());
    if parts.len() >= 4 {
        date_prefix(rel)
    } else {
        day.to_owned()
    }
}

/// The entry of a file that was found.
pub open spec fn found_entry(f: FoundFile) -> JsonView {
    let o = empty_object().put("rel"@, JsonView::Str(f.rel@)).put("path"@, JsonView::Str(f.rel@)).put(
        "name"@,
        JsonView::Str(f.name@),
    ).put("date"@, JsonView::Str(file_day(f.rel@, f.day@))).put("size"@, count_json(f.size as nat)).put(
        "created_at"@,
        JsonView::Str(f.created_at@),
    ).put("storage"@, JsonView::Str("local"@)).put("local"@, JsonView::Bool(true)).put(
        "webdav"@,
        JsonView::Bool(false),
    );
    if f.data@.len() == 0 {
        o
    } else {
        with_size(o, image_size(f.data@))
    }
}

/// The entry of a file that was uploaded, over what is known of it.
pub open spec fn synced_entry(known: JsonView, f: FoundFile, remote_url: Seq<char>) -> JsonView {
    let base = match known {
        JsonView::Obj(o) => JsonView::Obj(o),
        _ => empty_object(),
    };
    with_size(
        base.put("rel"@, JsonView::Str(f.rel@)).put("path"@, JsonView::Str(f.rel@)).put(
            "name"@,
            JsonView::Str(f.name@),
        ).put("date"@, JsonView::Str(file_day(f.rel@, f.day@))).put(
            "size"@,
            count_json(f.data@.len()),
        ).put(
            "created_at"@,
            JsonView::Str(
                match known.get("created_at"@) {
                    Some(JsonView::Str(s)) => s,
                    _ => f.created_at@,
                },
            ),
        ).put("storage"@, JsonView::Str("both"@)).put("local"@, JsonView::Bool(true)).put(
            "webdav"@,
            JsonView::Bool(true),
        ).put("remote_url"@, JsonView::Str(remote_url)),
        image_size(f.data@),
    )
}

/// Whether an entry of an index counts: it is an object under the path of an image.
pub open spec fn clean_entry() -> spec_fn((Seq<char>, JsonView)) -> bool {
    |e: (Seq<char>, JsonView)| e.1 is Obj && image_path(e.0)
}

/// An entry after it was held against what is stored locally: none where the image is gone.
pub open spec fn reconciled_entry(local: Seq<Seq<char>>) -> spec_fn(
    (Seq<char>, JsonView),
) -> Option<(Seq<char>, JsonView)> {
    |e: (Seq<char>, JsonView)|
        {
            let here = safe_path(e.0) is Some && local.contains(safe_path(e.0)->0);
            let there = e.1.bool_at("webdav"@, false);
            if !image_path(e.0) || (!here && !there) {
                None
            } else if e.1.get("local"@) == Some(JsonView::Bool(here)) && e.1.get("storage"@) == Some(
                JsonView::Str(storage_word(here, there)),
            ) {
                Some(e)
            } else {
                Some(
                    (
                        e.0,
                        e.1.put("local"@, JsonView::Bool(here)).put(
                            "storage"@,
                            JsonView::Str(storage_word(here, there)),
                        ),
                    ),
                )
            }
        }
}

/// What the entry of an image reads as after it was held against what is stored locally.
pub open spec fn reconciled_value(
    rel: Seq<char>,
    v: Option<JsonView>,
    local: Seq<Seq<char>>,
) -> Option<JsonView> {
    match v {
        Some(e) => match reconciled_entry(local)((rel, e)) {
            Some(n) => Some(n.1),
            None => None,
        },
        None => None,
    }
}

/// The index after one image was held against what is stored locally.
pub open spec fn reconciled_at(
    o: Seq<(Seq<char>, JsonView)>,
    rel: Seq<char>,
    local: Seq<Seq<char>>,
) -> Seq<(Seq<char>, JsonView)> {
    match (lookup(o, rel), reconciled_value(rel, lookup(o, rel), local)) {
        (Some(_), Some(n)) => put_entry(o, rel, n),
        (Some(_), None) => pulled(o, rel),
        (None, _) => o,
    }
}

/// The index after some images were held against what is stored locally, one after the other.
pub open spec fn reconciled(
    o: Seq<(Seq<char>, JsonView)>,
    rels: Seq<Seq<char>>,
    local: Seq<Seq<char>>,
) -> Seq<(Seq<char>, JsonView)>
    decreases rels.len(),
{
    if rels.len() == 0 {
        o
    } else {
        reconciled_at(reconciled(o, rels.drop_last(), local), rels.last(), local)
    }
}

fn held_against(rel: &str, entry: &Json, local: &Vec<String>) -> (r: Option<Json>)
    ensures
        match r {
            Some(n) => reconciled_entry(views(local@))((rel@, entry@)) == Some((rel@, n@)),
            None => reconciled_entry(views(local@))((rel@, entry@)) is None,
        },
{
    if !is_image_rel(rel) {
        return None;
    }
    let here = match safe_relative_path(rel) {
        Ok(safe) => has_text(local, safe.as_str()),
        Err(_) => false,
    };
    let there = entry.bool_at("webdav", false);
    if !here && !there {
        return None;
    }
    let word = storage_label(here, there);
    let same_local = match entry.get("local") {
        Some(Json::Bool(b)) => *b == here,
        _ => false,
    };
    let mut next = entry.copy();
    if !(same_local && crate::account::holds_at(entry, "storage", word)) {
        next.set("local", Json::Bool(here));
        next.set("storage", Json::from_text(word));
    }
    Some(next)
}

/// An entry as it is shown, where its day lies between two; empty ones ask for nothing.
pub open spec fn shown_entry(
    start: Seq<char>,
    end: Seq<char>,
    public_base: Seq<char>,
    base: Seq<char>,
    default_base: Seq<char>,
) -> spec_fn((Seq<char>, JsonView)) -> Option<JsonView> {
    |e: (Seq<char>, JsonView)|
        {
            let day = e.1.str_at("date"@);
            if (start.len() > 0 && precedes(day, start)) || (end.len() > 0 && precedes(end, day)) {
                None
            } else {
                Some(
                    e.1.put("rel"@, JsonView::Str(e.0)).put("path"@, JsonView::Str(e.0)).put(
                        "url"@,
                        JsonView::Str(
                            match safe_path(e.0) {
                                Some(s) => image_url(s, public_base, base, default_base),
                                None => Seq::empty(),
                            },
                        ),
                    ),
                )
            }
        }
}

/// Whether every entry is an object.
pub open spec fn all_objects(entries: Seq<(Seq<char>, JsonView)>) -> bool {
    forall|k: int| 0 <= k < entries.len() ==> (#[trigger] entries[k]).1 is Obj
}

proof fn lemma_dropped_objects(entries: Seq<(Seq<char>, JsonView)>, k: Seq<char>)
    requires
        all_objects(entries),
    ensures
        all_objects(pulled(entries, k)),
{
    lemma_pulled(entries, k);
    let q = pulled(entries, k);
    assert forall|i: int| 0 <= i < q.len() implies (#[trigger] q[i]).1 is Obj by {
        let j = choose|j: int| 0 <= j < entries.len() && entries[j] == q[i];
        assert(entries[j].1 is Obj);
    }
}

proof fn lemma_put_objects(entries: Seq<(Seq<char>, JsonView)>, k: Seq<char>, v: JsonView)
    requires
        all_objects(entries),
        v is Obj,
    ensures
        all_objects(put_entry(entries, k, v)),
{
    lemma_lookup_found(entries, k);
    lemma_place(entries, k);
    lemma_put_at(entries, k, v, place(entries, k));
}

proof fn lemma_reconciled_objects(
    entries: Seq<(Seq<char>, JsonView)>,
    rels: Seq<Seq<char>>,
    local: Seq<Seq<char>>,
)
    requires
        all_objects(entries),
    ensures
        all_objects(reconciled(entries, rels, local)),
    decreases rels.len(),
{
    if rels.len() > 0 {
        lemma_reconciled_objects(entries, rels.drop_last(), local);
        let b = reconciled(entries, rels.drop_last(), local);
        let rel = rels.last();
        lemma_dropped_objects(b, rel);
        if lookup(b, rel) is Some {
            lemma_lookup_found(b, rel);
            let i = choose|i: int|
                0 <= i < b.len() && #[trigger] b[i] == (rel, lookup(b, rel)->0);
            assert(b[i].1 is Obj);
            match reconciled_value(rel, lookup(b, rel), local) {
                Some(n) => lemma_put_objects(b, rel, n),
                None => {},
            }
        }
    }
}

/// The index of the images that are stored.
pub struct ImageStorageService {
    items: Vec<(String, Json)>,
}

impl ImageStorageService {
    /// The entries, in order.
    pub closed spec fn entries(self) -> Seq<(Seq<char>, JsonView)> {
        fields_view(self.items@)
    }

    /// Every entry is an object.
    pub open spec fn wf(self) -> bool {
        all_objects(self.entries())
    }

    /// The mode in which images are stored.
    pub fn mode(settings: &Json) -> (r: String)
        ensures
            r@ == or_else(trimmed(settings@.str_at("mode"@)), "local"@),
    {
        non_empty_or(trim(settings.str_at("mode").as_str()), "local")
    }

    /// The index that a document holds: the entries that are objects under paths of images.
    pub fn load_clean_index(raw: &Json) -> (r: ImageStorageService)
        ensures
            r.entries() == (match raw@.get("items"@) {
                Some(JsonView::Obj(o)) => o.filter(clean_entry()),
                _ => Seq::empty(),
            }),
            r.wf(),
    {
        broadcast use vstd::seq_lib::group_filter_ensures;

        let mut items: Vec<(String, Json)> = Vec::new();
        assert(fields_view(items@) =~= Seq::empty());
        match raw.get("items") {
            Some(Json::Obj(o)) => {
                let ghost v = fields_view(o@);
                let ghost keep = clean_entry();
                let mut i: usize = 0;
                proof {
                    reveal(Seq::filter);
                    assert(fields_view(items@) =~= v.take(0).filter(keep));
                }
                while i < o.len()
                    invariant
                        i <= o@.len(),
                        v == fields_view(o@),
                        keep == clean_entry(),
                        fields_view(items@) == v.take(i as int).filter(keep),
                    decreases o@.len() - i,
                {
                    let ghost done = fields_view(items@);
                    assert(v.take(i + 1).drop_last() =~= v.take(i as int));
                    assert(v.take(i + 1).filter(keep) == if keep(v[i as int]) {
                        done.push(v[i as int])
                    } else {
                        done
                    }) by {
                        reveal(Seq::filter);
                    }
                    if o[i].1.is_object() && is_image_rel(o[i].0.as_str()) {
                        items.push((o[i].0.clone(), o[i].1.copy()));
                        assert(fields_view(items@) =~= done.push(v[i as int]));
                    }
                    i += 1;
                }
                assert(v.take(i as int) =~= v);
            },
            _ => {},
        }
        ImageStorageService { items }
    }

    /// The index as a document.
    pub fn to_value(&self) -> (r: Json)
        ensures
            r@ == empty_object().put("items"@, JsonView::Obj(self.entries())),
    {
        let mut out: Vec<(String, Json)> = Vec::new();
        let mut i: usize = 0;
        while i < self.items.len()
            invariant
                i <= self.items@.len(),
                fields_view(out@) =~= self.entries().take(i as int),
            decreases self.items@.len() - i,
        {
            let ghost done = fields_view(out@);
            out.push((self.items[i].0.clone(), self.items[i].1.copy()));
            assert(fields_view(out@) =~= done.push(self.entries()[i as int]));
            i += 1;
        }
        assert(fields_view(out@) =~= self.entries());
        let mut o = Json::object();
        o.set("items", Json::Obj(out));
        o
    }

    /// The entry of an image.
    pub fn get(&self, rel: &str) -> (r: Option<Json>)
        ensures
            match r {
                Some(v) => lookup(self.entries(), rel@) == Some(v@),
                None => lookup(self.entries(), rel@) is None,
            },
    {
        let i = field_position(&self.items, rel);
        proof {
            lemma_lookup_at(self.entries(), rel@, i as int);
        }
        if i < self.items.len() {
            assert(self.entries()[i as int].1 == self.items@[i as int].1@);
            Some(self.items[i].1.copy())
        } else {
            None
        }
    }

    /// Whether an image is on the server.
    pub fn on_webdav(&self, rel: &str) -> (r: bool)
        ensures
            r == noted_remote(self.entries(), rel@),
    {
        match self.get(rel) {
            Some(v) => v.bool_at("webdav", false),
            None => false,
        }
    }

    /// Notes an image that was stored, and tells where it is: `local` and `webdav` tell whether
    /// it was stored locally and on the server, there at `remote_url`.
    pub fn save(
        &mut self,
        rel: &str,
        data: &[u8],
        created_at: &str,
        local: bool,
        webdav: bool,
        remote_url: &str,
        settings: &Json,
        base_url: &str,
        default_base: &str,
    ) -> (r: StoredImage)
        ensures
            old(self).wf() ==> final(self).wf(),
            final(self).entries() == put_entry(
                old(self).entries(),
                rel@,
                stored_entry(
                    rel@,
                    data@.len(),
                    created_at@,
                    local,
                    webdav,
                    remote_url@,
                    image_size(data@),
                ),
            ),
            r.rel@ == rel@,
            r.url@ == (match safe_path(rel@) {
                Some(safe) => image_url(
                    safe,
                    trimmed(settings@.str_at("public_base_url"@)),
                    base_url@,
                    default_base@,
                ),
                None => Seq::empty(),
            }),
            r.storage@ == storage_word(local, webdav),
            r.size == data@.len(),
            lookup(final(self).entries(), rel@) matches Some(e) && {
                &&& e.get("local"@) == Some(JsonView::Bool(local))
                &&& e.get("webdav"@) == Some(JsonView::Bool(webdav))
                &&& e.str_at("created_at"@) == created_at@
                &&& e.str_at("remote_url"@) == remote_url@
                &&& e.get("size"@) == Some(count_json(data@.len()))
            },
            forall|q: Seq<char>|
                q != rel@ ==> #[trigger] lookup(final(self).entries(), q) == lookup(
                    old(self).entries(),
                    q,
                ),
    {
        let mut o = Json::object();
        o.set("rel", Json::from_text(rel));
        o.set("path", Json::from_text(rel));
        o.set("name", Json::Str(file_name(rel)));
        o.set("date", Json::Str(date_prefix(rel)));
        o.set("size", Json::from_count(data.len()));
        o.set("created_at", Json::from_text(created_at));
        o.set("storage", Json::from_text(storage_label(local, webdav)));
        o.set("local", Json::Bool(local));
        o.set("webdav", Json::Bool(webdav));
        o.set("remote_url", Json::from_text(remote_url));
        dims_into(&mut o, data);
        proof {
            crate::gallery_laws::law_stored_image(
                rel@,
                data@.len(),
                created_at@,
                local,
                webdav,
                remote_url@,
                image_size(data@),
            );
            lemma_lookup_put(self.entries(), rel@, o@, rel@);
            assert forall|q: Seq<char>| q != rel@ implies #[trigger] lookup(
                put_entry(self.entries(), rel@, o@),
                q,
            ) == lookup(self.entries(), q) by {
                lemma_lookup_put(self.entries(), rel@, o@, q);
            }
            if self.wf() {
                lemma_put_objects(self.entries(), rel@, o@);
            }
        }
        set_field(&mut self.items, rel, o);
        let url = match public_url(rel, settings, base_url, default_base) {
            Ok(u) => u,
            Err(_) => String::new(),
        };
        StoredImage {
            rel: rel.to_owned(),
            url,
            storage: storage_label(local, webdav).to_owned(),
            size: data.len(),
        }
    }

    /// Notes a file that was found, where it is an image that is not noted yet; tells whether it
    /// was.
    pub fn add_found(&mut self, f: &FoundFile) -> (r: bool)
        ensures
            old(self).wf() ==> final(self).wf(),
            r == (image_path(f.name@) && lookup(old(self).entries(), f.rel@) is None),
            final(self).entries() == (if r {
                put_entry(old(self).entries(), f.rel@, found_entry(*f))
            } else {
                old(self).entries()
            }),
    {
        if !is_image_rel(f.name.as_str()) || self.get(f.rel.as_str()).is_some() {
            return false;
        }
        let mut o = Json::object();
        o.set("rel", Json::from_text(f.rel.as_str()));
        o.set("path", Json::from_text(f.rel.as_str()));
        o.set("name", Json::from_text(f.name.as_str()));
        o.set("date", Json::Str(day_of(f.rel.as_str(), f.day.as_str())));
        o.set("size", crate::json::count_value(f.size));
        o.set("created_at", Json::from_text(f.created_at.as_str()));
        o.set("storage", Json::from_text("local"));
        o.set("local", Json::Bool(true));
        o.set("webdav", Json::Bool(false));
        if f.data.len() > 0 {
            dims_into(&mut o, f.data.as_slice());
        }
        proof {
            if self.wf() {
                lemma_put_objects(self.entries(), f.rel@, o@);
            }
        }
        set_field(&mut self.items, f.rel.as_str(), o);
        true
    }

    /// The entries of the images that are there, in order, with where they are.
    fn present_entries(&self, local: &Vec<String>) -> (r: Vec<(String, Json)>)
        ensures
            fields_view(r@) == self.entries().filter_map(reconciled_entry(views(local@))),
    {
        let ghost es = self.entries();
        let ghost f = reconciled_entry(views(local@));
        let mut out: Vec<(String, Json)> = Vec::new();
        let mut i: usize = 0;
        assert(es.take(0).filter_map(f) =~= Seq::empty());
        assert(fields_view(out@) =~= Seq::empty());
        while i < self.items.len()
            invariant
                i <= self.items@.len(),
                es == self.entries(),
                f == reconciled_entry(views(local@)),
                fields_view(out@) == es.take(i as int).filter_map(f),
            decreases self.items@.len() - i,
        {
            proof {
                es.lemma_filter_map_take_succ(f, i as int);
            }
            let ghost done = fields_view(out@);
            let ghost e = es[i as int];
            let rel = self.items[i].0.as_str();
            let entry = &self.items[i].1;
            assert(e == (rel@, entry@));
            match held_against(rel, entry, local) {
                Some(next) => {
                    let ghost nv = next@;
                    out.push((self.items[i].0.clone(), next));
                    assert(fields_view(out@) =~= done + seq![(e.0, nv)]);
                },
                None => {},
            }
            assert(fields_view(out@) =~= es.take(i + 1).filter_map(f));
            i += 1;
        }
        assert(es.take(i as int) =~= es);
        out
    }

    /// Holds the index against the images that are stored locally: what is gone is forgotten, and
    /// where an image is is noted anew.
    pub fn reconcile(&mut self, local: &Vec<String>)
        ensures
            old(self).wf() ==> final(self).wf(),
            final(self).entries() == reconciled(
                old(self).entries(),
                names_of(old(self).entries()),
                views(local@),
            ),
    {
        let ghost es = self.entries();
        let rels = field_names(&self.items);
        let ghost ns = names_of(es);
        assert(views(rels@).len() == rels@.len());
        let mut i: usize = 0;
        assert(ns.take(0) =~= Seq::empty());
        while i < rels.len()
            invariant
                i <= rels@.len(),
                ns == views(rels@),
                es == old(self).entries(),
                self.entries() == reconciled(es, ns.take(i as int), views(local@)),
            decreases rels@.len() - i,
        {
            assert(ns.take(i + 1).drop_last() =~= ns.take(i as int));
            assert(ns[i as int] == rels@[i as int]@);
            let rel = rels[i].as_str();
            match self.get(rel) {
                Some(entry) => {
                    match held_against(rel, &entry, local) {
                        Some(next) => {
                            set_field(&mut self.items, rel, next);
                        },
                        None => {
                            remove_field(&mut self.items, rel);
                        },
                    }
                },
                None => {},
            }
            i += 1;
        }
        assert(ns.take(i as int) =~= ns);
        proof {
            if old(self).wf() {
                lemma_reconciled_objects(es, ns, views(local@));
            }
        }
    }

    /// Entries as they are shown, the newest first.
    fn show_entries(
        items: &Vec<(String, Json)>,
        settings: &Json,
        base_url: &str,
        default_base: &str,
        start_date: &str,
        end_date: &str,
    ) -> (r: Vec<Json>)
        ensures
            list_view(r@) == sorted(
                fields_view(items@).filter_map(
                    shown_entry(
                        start_date@,
                        end_date@,
                        trimmed(settings@.str_at("public_base_url"@)),
                        base_url@,
                        default_base@,
                    ),
                ),
                newest_order("created_at"@),
            ),
    {
        let ghost es = fields_view(items@);
        let ghost f = shown_entry(
            start_date@,
            end_date@,
            trimmed(settings@.str_at("public_base_url"@)),
            base_url@,
            default_base@,
        );
        let mut out: Vec<Json> = Vec::new();
        let mut i: usize = 0;
        assert(es.take(0).filter_map(f) =~= Seq::empty());
        assert(list_view(out@) =~= Seq::empty());
        while i < items.len()
            invariant
                i <= items@.len(),
                es == fields_view(items@),
                f == shown_entry(
                    start_date@,
                    end_date@,
                    trimmed(settings@.str_at("public_base_url"@)),
                    base_url@,
                    default_base@,
                ),
                list_view(out@) == es.take(i as int).filter_map(f),
            decreases items@.len() - i,
        {
            proof {
                es.lemma_filter_map_take_succ(f, i as int);
            }
            let ghost done = list_view(out@);
            let rel = items[i].0.as_str();
            let entry = &items[i].1;
            assert(es[i as int] == (rel@, entry@));
            let day = entry.str_at("date");
            if !((!start_date.is_empty() && before(day.as_str(), start_date)) || (
            !end_date.is_empty() && before(end_date, day.as_str()))) {
                let mut o = entry.copy();
                o.set("rel", Json::from_text(rel));
                o.set("path", Json::from_text(rel));
                let url = match public_url(rel, settings, base_url, default_base) {
                    Ok(u) => u,
                    Err(_) => String::new(),
                };
                o.set("url", Json::Str(url));
                let ghost ov = o@;
                out.push(o);
                assert(list_view(out@) =~= done + seq![ov]);
            }
            assert(list_view(out@) =~= es.take(i + 1).filter_map(f));
            i += 1;
        }
        assert(es.take(i as int) =~= es);
        sort_newest(&out, "created_at")
    }

    /// Holds the index against the images that are stored locally, and gives the entries as they
    /// are shown, the newest first; of two that are as new the one that stood first in the index
    /// comes first.
    pub fn list_items(
        &mut self,
        local: &Vec<String>,
        settings: &Json,
        base_url: &str,
        default_base: &str,
        start_date: &str,
        end_date: &str,
    ) -> (r: Vec<Json>)
        ensures
            old(self).wf() ==> final(self).wf(),
            final(self).entries() == reconciled(
                old(self).entries(),
                names_of(old(self).entries()),
                views(local@),
            ),
            list_view(r@) == sorted(
                old(self).entries().filter_map(reconciled_entry(views(local@))).filter_map(
                    shown_entry(
                        start_date@,
                        end_date@,
                        trimmed(settings@.str_at("public_base_url"@)),
                        base_url@,
                        default_base@,
                    ),
                ),
                newest_order("created_at"@),
            ),
    {
        let present = self.present_entries(local);
        let shown = Self::show_entries(
            &present,
            settings,
            base_url,
            default_base,
            start_date,
            end_date,
        );
        self.reconcile(local);
        shown
    }

    /// Forgets an image, and tells whether it was noted.
    pub fn delete(&mut self, safe: &str) -> (r: bool)
        ensures
            old(self).wf() ==> final(self).wf(),
            final(self).entries() == pulled(old(self).entries(), safe@),
            r == (lookup(old(self).entries(), safe@) is Some),
            lookup(final(self).entries(), safe@) is None,
            forall|q: Seq<char>|
                q != safe@ ==> #[trigger] lookup(final(self).entries(), q) == lookup(
                    old(self).entries(),
                    q,
                ),
    {
        proof {
            crate::assoc::lemma_pulled(self.entries(), safe@);
            if self.wf() {
                lemma_dropped_objects(self.entries(), safe@);
            }
        }
        let there = self.get(safe).is_some();
        remove_field(&mut self.items, safe);
        there
    }

    /// Notes that a file was uploaded.
    pub fn record_upload(&mut self, f: &FoundFile, remote_url: &str)
        ensures
            old(self).wf() ==> final(self).wf(),
            final(self).entries() == put_entry(
                old(self).entries(),
                f.rel@,
                synced_entry(
                    match lookup(old(self).entries(), f.rel@) {
                        Some(v) => v,
                        None => JsonView::Null,
                    },
                    *f,
                    remote_url@,
                ),
            ),
            lookup(final(self).entries(), f.rel@) matches Some(e) && {
                &&& e.get("local"@) == Some(JsonView::Bool(true))
                &&& e.get("webdav"@) == Some(JsonView::Bool(true))
                &&& e.str_at("storage"@) == "both"@
                &&& e.str_at("remote_url"@) == remote_url@
            },
    {
        proof {
            let known = match lookup(self.entries(), f.rel@) {
                Some(v) => v,
                None => JsonView::Null,
            };
            crate::gallery_laws::law_found_image(*f, known, remote_url@);
            lemma_lookup_put(
                self.entries(),
                f.rel@,
                synced_entry(known, *f, remote_url@),
                f.rel@,
            );
        }
        let known = match self.get(f.rel.as_str()) {
            Some(v) => v,
            None => Json::Null,
        };
        let created = match known.get("created_at") {
            Some(Json::Str(s)) => s.clone(),
            _ => f.created_at.clone(),
        };
        let mut o = match known {
            Json::Obj(x) => Json::Obj(x),
            _ => Json::object(),
        };
        o.set("rel", Json::from_text(f.rel.as_str()));
        o.set("path", Json::from_text(f.rel.as_str()));
        o.set("name", Json::from_text(f.name.as_str()));
        o.set("date", Json::Str(day_of(f.rel.as_str(), f.day.as_str())));
        o.set("size", Json::from_count(f.data.len()));
        o.set("created_at", Json::Str(created));
        o.set("storage", Json::from_text("both"));
        o.set("local", Json::Bool(true));
        o.set("webdav", Json::Bool(true));
        o.set("remote_url", Json::from_text(remote_url));
        dims_into(&mut o, f.data.as_slice());
        proof {
            if self.wf() {
                lemma_put_objects(self.entries(), f.rel@, o@);
            }
        }
        set_field(&mut self.items, f.rel.as_str(), o);
    }
}

/// An image is read from where it is: locally where it is there, else from the server where it is
/// noted there, else it is not found.
#[derive(Clone, Copy, PartialEq, Eq, Structural)]
pub enum ImageSource {
    Local,
    Remote,
    Missing,
}

/// Whether an entry is on the server.
pub open spec fn noted_remote(entries: Seq<(Seq<char>, JsonView)>, rel: Seq<char>) -> bool {
    match lookup(entries, rel) {
        Some(v) => v.bool_at("webdav"@, false),
        None => false,
    }
}

/// Where the image under a path is read from.
pub open spec fn source_of(
    entries: Seq<(Seq<char>, JsonView)>,
    rel: Seq<char>,
    local: bool,
) -> ImageSource {
    match safe_path(rel) {
        Some(safe) => if !image_path(safe) {
            ImageSource::Missing
        } else if local {
            ImageSource::Local
        } else if noted_remote(entries, safe) {
            ImageSource::Remote
        } else {
            ImageSource::Missing
        },
        None => ImageSource::Missing,
    }
}

/// What is done with a file when all images are uploaded.
#[derive(Clone, Copy, PartialEq, Eq, Structural)]
pub enum SyncStep {
    /// It is no image.
    Pass,
    /// It is on the server already.
    Skip,
    Upload,
}

impl ImageStorageService {
    /// Where an image is read from; `local` tells whether its file is there.
    pub fn image_source(&self, rel: &str, local: bool) -> (r: ImageSource)
        ensures
            r == source_of(self.entries(), rel@, local),
    {
        match safe_relative_path(rel) {
            Ok(safe) => {
                if !is_image_rel(safe.as_str()) {
                    ImageSource::Missing
                } else if local {
                    ImageSource::Local
                } else if self.on_webdav(safe.as_str()) {
                    ImageSource::Remote
                } else {
                    ImageSource::Missing
                }
            },
            Err(_) => ImageSource::Missing,
        }
    }

    /// Whether an image is stored; `local` tells whether its file is there.
    pub fn is_stored(&self, rel: &str, local: bool) -> (r: bool)
        ensures
            r == (source_of(self.entries(), rel@, local) != ImageSource::Missing),
    {
        match self.image_source(rel, local) {
            ImageSource::Missing => false,
            _ => true,
        }
    }

    /// Whether an image is stored locally; `local` tells whether its file is there.
    pub fn has_local(rel: &str, local: bool) -> (r: bool)
        ensures
            r == (local && safe_path(rel@) is Some && image_path(safe_path(rel@)->0)),
    {
        match safe_relative_path(rel) {
            Ok(safe) => is_image_rel(safe.as_str()) && local,
            Err(_) => false,
        }
    }

    /// What is done with a file when all images are uploaded.
    pub fn sync_step(&self, name: &str, rel: &str) -> (r: SyncStep)
        ensures
            r == (if !image_path(name@) {
                SyncStep::Pass
            } else if noted_remote(self.entries(), rel@) {
                SyncStep::Skip
            } else {
                SyncStep::Upload
            }),
    {
        if !is_image_rel(name) {
            SyncStep::Pass
        } else if self.on_webdav(rel) {
            SyncStep::Skip
        } else {
            SyncStep::Upload
        }
    }
}

/// What the deletion of an image comes to: `local` tells whether its file went, `remote` what the
/// server answered, where it was asked. A failure there counts only where nothing went locally.
pub fn delete_outcome(local: bool, remote: Option<Result<bool, AppError>>) -> (r: Result<bool, AppError>)
    ensures
        match remote {
            None => r matches Ok(b) && b == local,
            Some(Ok(gone)) => r matches Ok(b) && b == (gone || local),
            Some(Err(e)) => if local {
                r matches Ok(b) && b
            } else {
                r matches Err(x) && x == e
            },
        },
{
    match remote {
        None => Ok(local),
        Some(Ok(gone)) => Ok(gone || local),
        Some(Err(e)) => if local {
            Ok(true)
        } else {
            Err(e)
        },
    }
}

/// What became of one file in an upload of all images.
pub enum SyncResult {
    /// It was uploaded.
    Uploaded,
    /// It was there already.
    Skipped,
    /// It could not be read or uploaded.
    Failed,
}

/// What became of the files in an upload of all images.
pub struct SyncTally {
    pub uploaded: usize,
    pub skipped: usize,
    pub failed: usize,
}

/// One more, cut at the largest number that can be counted.
pub open spec fn one_more(n: usize) -> usize {
    if n == usize::MAX {
        n
    } else {
        (n + 1) as usize
    }
}

fn count_up(n: usize) -> (r: usize)
    ensures
        r == one_more(n),
{
    if n == usize::MAX {
        n
    } else {
        n + 1
    }
}

impl SyncTally {
    /// The tally of no file.
    pub fn new() -> (r: SyncTally)
        ensures
            r == (SyncTally { uploaded: 0, skipped: 0, failed: 0 }),
    {
        SyncTally { uploaded: 0, skipped: 0, failed: 0 }
    }

    /// Counts one more file in.
    pub fn count(&mut self, result: SyncResult)
        ensures
            *final(self) == (match result {
                SyncResult::Uploaded => SyncTally {
                    uploaded: one_more(old(self).uploaded),
                    ..*old(self)
                },
                SyncResult::Skipped => SyncTally {
                    skipped: one_more(old(self).skipped),
                    ..*old(self)
                },
                SyncResult::Failed => SyncTally { failed: one_more(old(self).failed), ..*old(self) },
            }),
    {
        match result {
            SyncResult::Uploaded => {
                self.uploaded = count_up(self.uploaded);
            },
            SyncResult::Skipped => {
                self.skipped = count_up(self.skipped);
            },
            SyncResult::Failed => {
                self.failed = count_up(self.failed);
            },
        }
    }

    /// The tally as a report.
    pub fn report(&self) -> (r: Json)
        ensures
            r@ == empty_object().put("uploaded"@, count_json(self.uploaded as nat)).put(
                "skipped"@,
                count_json(self.skipped as nat),
            ).put("failed"@, count_json(self.failed as nat)),
    {
        sync_report(self.uploaded, self.skipped, self.failed)
    }
}

/// The report on an upload of all images.
fn sync_report(uploaded: usize, skipped: usize, failed: usize) -> (r: Json)
    ensures
        r@ == empty_object().put("uploaded"@, count_json(uploaded as nat)).put(
            "skipped"@,
            count_json(skipped as nat),
        ).put("failed"@, count_json(failed as nat)),
{
    let mut o = Json::object();
    o.set("uploaded", Json::from_count(uploaded));
    o.set("skipped", Json::from_count(skipped));
    o.set("failed", Json::from_count(failed));
    o
}

/// Checks that images may be uploaded: the mode must store on the server.
pub fn check_sync(mode: &str) -> (r: Result<(), AppError>)
    ensures
        if mode@ == "webdav"@ || mode@ == "both"@ {
            r is Ok
        } else {
            r matches Err(e) && e.is_plain(502, message_detail("WebDAV 图片存储未启用"@))
        },
{
    if same(mode, "webdav") || same(mode, "both") {
        Ok(())
    } else {
        Err(AppError::upstream("WebDAV 图片存储未启用"))
    }
}

// ---------------------------------------------------------------------------
// the WebDAV server
// ---------------------------------------------------------------------------

/// The WebDAV server that images go to.
pub struct WebDavClient {
    pub url: String,
    pub username: String,
    pub password: String,
    pub root_path: String,
}

/// The segments of a path, each percent-encoded; empty ones are left out.
pub open spec fn encoded_segment() -> spec_fn(Seq<char>) -> Option<Seq<char>> {
    |p: Seq<char>|
        if p.len() > 0 {
            Some(encoded(p, false))
        } else {
            None
        }
}

/// The encoded segments of a path.
pub open spec fn encoded_segments(path: Seq<char>) -> Seq<Seq<char>> {
    pieces(path, '/').filter_map(encoded_segment())
}

fn encode_segments(path: &str) -> (r: Vec<String>)
    ensures
        views(r@) == encoded_segments(path@),
{
    let parts = split(path, '/');
    let ghost v = views(parts@);
    let ghost f = encoded_segment();
    let mut out: Vec<String> = Vec::new();
    let mut i: usize = 0;
    assert(v.take(0).filter_map(f) =~= Seq::empty());
    assert(views(out@) =~= Seq::empty());
    while i < parts.len()
        invariant
            i <= parts@.len(),
            v == views(parts@),
            f == encoded_segment(),
            views(out@) == v.take(i as int).filter_map(f),
        decreases parts@.len() - i,
    {
        proof {
            v.lemma_filter_map_take_succ(f, i as int);
        }
        let ghost done = views(out@);
        if !parts[i].as_str().is_empty() {
            let e = encode_segment(parts[i].as_str());
            let ghost ev = e@;
            out.push(e);
            assert(views(out@) =~= done + seq![ev]);
        }
        assert(views(out@) =~= v.take(i + 1).filter_map(f));
        i += 1;
    }
    assert(v.take(i as int) =~= v);
    out
}

/// The directory of a path; empty where it has none.
pub open spec fn parent_path(safe: Seq<char>) -> Seq<char> {
    joined(pieces(safe, '/').drop_last(), "/"@)
}

/// The addresses of the directories down to one, outermost first.
pub open spec fn directory_urls(base: Seq<char>, segments: Seq<Seq<char>>) -> Seq<Seq<char>>
    decreases segments.len(),
{
    if segments.len() == 0 {
        Seq::empty()
    } else {
        let done = directory_urls(base, segments.drop_last());
        done.push(
            (if done.len() == 0 {
                base
            } else {
                done.last()
            }) + "/"@ + segments.last(),
        )
    }
}

/// A refusal by the server.
pub open spec fn webdav_refusal(method: Seq<char>, status: u16) -> JsonView {
    message_detail("WebDAV "@ + method + " failed: HTTP "@ + decimal(status as nat))
}

fn webdav_error(method: &str, status: u16) -> (r: AppError)
    ensures
        r.is_plain(502, webdav_refusal(method@, status)),
{
    let mut s = cat3("WebDAV ", method, " failed: HTTP ");
    s.append(decimal_text(status as u128).as_str());
    AppError::upstream(s.as_str())
}

impl WebDavClient {
    pub fn new(settings: &Json) -> (r: WebDavClient)
        ensures
            r.url@ == skip_back(trimmed(settings@.str_at("webdav_url"@)), CharClass::Just('/')),
            r.username@ == trimmed(settings@.str_at("webdav_username"@)),
            r.password@ == trimmed(settings@.str_at("webdav_password"@)),
            r.root_path@ == strip(
                trimmed(settings@.str_at("webdav_root_path"@)),
                CharClass::Just('/'),
            ),
    {
        WebDavClient {
            url: trim_back(
                trim(settings.str_at("webdav_url").as_str()).as_str(),
                CharClass::Just('/'),
            ),
            username: trim(settings.str_at("webdav_username").as_str()),
            password: trim(settings.str_at("webdav_password").as_str()),
            root_path: trim_class(
                trim(settings.str_at("webdav_root_path").as_str()).as_str(),
                CharClass::Just('/'),
            ),
        }
    }

    /// The header with which requests authenticate; none without a name and a password.
    pub fn basic_auth(&self) -> (r: Option<String>)
        ensures
            if self.username@.len() == 0 && self.password@.len() == 0 {
                r is None
            } else {
                r matches Some(h) && h@ == "Basic "@ + base64_text(
                    vstd::utf8::encode_utf8(self.username@ + ":"@ + self.password@),
                )
            },
    {
        if self.username.as_str().is_empty() && self.password.as_str().is_empty() {
            return None;
        }
        let pair = cat3(self.username.as_str(), ":", self.password.as_str());
        Some(cat("Basic ", base64_encode(pair.as_str().as_bytes()).as_str()))
    }

    /// The address of an image on the server, and of the root for an empty path.
    pub fn remote_url(&self, rel: &str) -> (r: Result<String, AppError>)
        ensures
            if rel@.len() > 0 && safe_path(rel@) is None {
                r matches Err(e) && e.is_plain(404, message_detail("image not found"@))
            } else {
                let root = encoded_segments(self.root_path@);
                let parts = if rel@.len() == 0 {
                    root
                } else {
                    root + encoded_segments(safe_path(rel@)->0)
                };
                r matches Ok(u) && u@ == (if parts.len() == 0 {
                    self.url@
                } else {
                    self.url@ + "/"@ + joined(parts, "/"@)
                })
            },
    {
        let mut parts = encode_segments(self.root_path.as_str());
        if !rel.is_empty() {
            let safe = match safe_relative_path(rel) {
                Ok(s) => s,
                Err(e) => {
                    return Err(e);
                },
            };
            let ghost a = views(parts@);
            let mut more = encode_segments(safe.as_str());
            let ghost b = views(more@);
            parts.append(&mut more);
            assert(views(parts@) =~= a + b);
        }
        assert(views(parts@).len() == parts@.len());
        if parts.len() == 0 {
            return Ok(self.url.clone());
        }
        Ok(cat3(self.url.as_str(), "/", join(&parts, "/").as_str()))
    }

    /// The addresses of the directories that an image needs, outermost first.
    pub fn directories(&self, rel: &str) -> (r: Result<Vec<String>, AppError>)
        ensures
            match safe_path(rel@) {
                Some(safe) => r matches Ok(v) && views(v@) == directory_urls(
                    self.url@,
                    (if self.root_path@ == "."@ {
                        Seq::empty()
                    } else {
                        encoded_segments(self.root_path@)
                    }) + encoded_segments(parent_path(safe)),
                ),
                None => r matches Err(e) && e.is_plain(404, message_detail("image not found"@)),
            },
    {
        let safe = match safe_relative_path(rel) {
            Ok(s) => s,
            Err(e) => {
                return Err(e);
            },
        };
        let mut names = split(safe.as_str(), '/');
        let ghost nv = views(names@);
        proof {
            crate::text::lemma_pieces_nonempty(safe@, '/');
        }
        names.pop();
        assert(views(names@) =~= nv.drop_last());
        let parent = join(&names, "/");
        let mut segments: Vec<String> = if same(self.root_path.as_str(), ".") {
            let none: Vec<String> = Vec::new();
            assert(views(none@) =~= Seq::empty());
            none
        } else {
            encode_segments(self.root_path.as_str())
        };
        let ghost a = views(segments@);
        let mut more = encode_segments(parent.as_str());
        let ghost b = views(more@);
        segments.append(&mut more);
        let ghost sv = views(segments@);
        assert(sv =~= a + b);
        let mut out: Vec<String> = Vec::new();
        let mut current = self.url.clone();
        let mut i: usize = 0;
        assert(views(out@) =~= Seq::empty());
        while i < segments.len()
            invariant
                i <= segments@.len(),
                sv == views(segments@),
                views(out@) == directory_urls(self.url@, sv.take(i as int)),
                current@ == (if views(out@).len() == 0 {
                    self.url@
                } else {
                    views(out@).last()
                }),
            decreases segments@.len() - i,
        {
            assert(sv.take(i + 1).drop_last() =~= sv.take(i as int));
            let ghost done = views(out@);
            current = cat3(current.as_str(), "/", segments[i].as_str());
            out.push(current.clone());
            assert(views(out@) =~= done.push(current@));
            i += 1;
        }
        assert(sv.take(i as int) =~= sv);
        Ok(out)
    }

    /// Checks the answer to the making of a directory; one that is there already will do.
    pub fn check_mkcol(status: u16) -> (r: Result<(), AppError>)
        ensures
            if status >= 400 && status != 405 {
                r matches Err(e) && e.is_plain(502, webdav_refusal("MKCOL"@, status))
            } else {
                r is Ok
            },
    {
        if status >= 400 && status != 405 {
            Err(webdav_error("MKCOL", status))
        } else {
            Ok(())
        }
    }

    /// Checks the answer to a request.
    pub fn check_status(method: &str, status: u16) -> (r: Result<(), AppError>)
        ensures
            if status >= 400 && !(method@ == "MKCOL"@ && status == 405) {
                r matches Err(e) && e.is_plain(502, webdav_refusal(method@, status))
            } else {
                r is Ok
            },
    {
        if status >= 400 && !(same(method, "MKCOL") && status == 405) {
            Err(webdav_error(method, status))
        } else {
            Ok(())
        }
    }

    /// Reads the answer to a deletion: whether the image was there.
    pub fn read_delete(status: u16) -> (r: Result<bool, AppError>)
        ensures
            if status == 200 || status == 202 || status == 204 {
                r matches Ok(b) && b
            } else if status == 404 {
                r matches Ok(b) && !b
            } else {
                r matches Err(e) && e.is_plain(502, webdav_refusal("DELETE"@, status))
            },
    {
        if status == 200 || status == 202 || status == 204 {
            Ok(true)
        } else if status == 404 {
            Ok(false)
        } else {
            Err(webdav_error("DELETE", status))
        }
    }

    /// What is wrong with the address of the server.
    pub fn url_fault(&self) -> (r: Option<&'static str>)
        ensures
            if self.url@.len() == 0 {
                r matches Some(e) && e@ == "WebDAV URL is required"@
            } else if !(crate::text::begins(self.url@, "http://"@) || crate::text::begins(
                self.url@,
                "https://"@,
            )) {
                r matches Some(e) && e@ == "invalid WebDAV URL"@
            } else {
                r is None
            },
    {
        if self.url.as_str().is_empty() {
            return Some("WebDAV URL is required");
        }
        if !starts_with(self.url.as_str(), "http://") && !starts_with(
            self.url.as_str(),
            "https://",
        ) {
            return Some("invalid WebDAV URL");
        }
        None
    }

    /// The report on a test of the server.
    pub fn test_report(error: Option<&str>) -> (r: Json)
        ensures
            r@ == (match error {
                None => empty_object().put("ok"@, JsonView::Bool(true)).put(
                    "status"@,
                    crate::value::int_json(200),
                ).put("error"@, JsonView::Null),
                Some(e) => empty_object().put("ok"@, JsonView::Bool(false)).put(
                    "status"@,
                    crate::value::int_json(0),
                ).put("error"@, JsonView::Str(e@)),
            }),
    {
        let mut o = Json::object();
        match error {
            None => {
                o.set("ok", Json::Bool(true));
                o.set("status", Json::from_int(200));
                o.set("error", Json::Null);
            },
            Some(e) => {
                o.set("ok", Json::Bool(false));
                o.set("status", Json::from_int(0));
                o.set("error", Json::from_text(e));
            },
        }
        o
    }
}

// ---------------------------------------------------------------------------
// laws
// ---------------------------------------------------------------------------

proof fn lemma_reconciled(
    entries: Seq<(Seq<char>, JsonView)>,
    rels: Seq<Seq<char>>,
    local: Seq<Seq<char>>,
    q: Seq<char>,
)
    requires
        all_objects(entries),
    ensures
        lookup(reconciled(entries, rels, local), q) == (if rels.contains(q) {
            reconciled_value(q, lookup(entries, q), local)
        } else {
            lookup(entries, q)
        }),
    decreases rels.len(),
{
    if rels.len() > 0 {
        let init = rels.drop_last();
        let rel = rels.last();
        let b = reconciled(entries, init, local);
        lemma_reconciled(entries, init, local, q);
        lemma_reconciled(entries, init, local, rel);
        lemma_reconciled_twice(entries, rel, local);
        lemma_pulled(b, rel);
        match reconciled_value(rel, lookup(b, rel), local) {
            Some(n) => lemma_lookup_put(b, rel, n, q),
            None => {},
        }
        assert(rels.contains(rel)) by {
            assert(rels[rels.len() - 1] == rel);
        }
        if init.contains(q) {
            let k = init.index_of(q);
            assert(rels[k] == q);
        } else if rels.contains(q) {
            let k = rels.index_of(q);
            if k < rels.len() - 1 {
                assert(init[k] == q);
            }
        }
    }
}

proof fn lemma_reconciled_twice(
    entries: Seq<(Seq<char>, JsonView)>,
    rel: Seq<char>,
    local: Seq<Seq<char>>,
)
    requires
        all_objects(entries),
    ensures
        ({
            let once = reconciled_value(rel, lookup(entries, rel), local);
            reconciled_value(rel, once, local) == once
        }),
{
    broadcast use crate::value::group_fields;

    reveal_strlit("webdav");
    reveal_strlit("local");
    reveal_strlit("storage");
    assert("webdav"@.len() == 6);
    assert("local"@.len() == 5);
    assert("storage"@.len() == 7);
    if lookup(entries, rel) is Some {
        lemma_lookup_found(entries, rel);
        let i = choose|i: int|
            0 <= i < entries.len() && #[trigger] entries[i] == (rel, lookup(entries, rel)->0);
        assert(entries[i].1 is Obj);
    }
}

/// After the index was held against what is stored, it notes exactly the images that it noted
/// before and that are stored, locally or on the server.
pub proof fn law_indexed_images_exist(
    entries: Seq<(Seq<char>, JsonView)>,
    local: Seq<Seq<char>>,
    rel: Seq<char>,
)
    requires
        all_objects(entries),
    ensures
        ({
            let left = lookup(reconciled(entries, names_of(entries), local), rel);
            &&& left == reconciled_value(rel, lookup(entries, rel), local)
            &&& left is Some <==> lookup(entries, rel) is Some && image_path(rel) && (
            lookup(entries, rel)->0.bool_at("webdav"@, false) || (safe_path(rel) is Some
                && local.contains(safe_path(rel)->0)))
        }),
{
    let ns = names_of(entries);
    lemma_reconciled(entries, ns, local, rel);
    if !ns.contains(rel) && lookup(entries, rel) is Some {
        lemma_lookup_found(entries, rel);
        let i = choose|i: int|
            0 <= i < entries.len() && #[trigger] entries[i] == (rel, lookup(entries, rel)->0);
        assert(ns[i] == rel);
    }
}

/// Each image that is listed is stored, locally or on the server.
pub proof fn law_listed_images_exist(
    entries: Seq<(Seq<char>, JsonView)>,
    local: Seq<Seq<char>>,
    i: int,
)
    requires
        all_objects(entries),
        0 <= i < entries.filter_map(reconciled_entry(local)).len(),
    ensures
        ({
            let e = entries.filter_map(reconciled_entry(local))[i];
            &&& image_path(e.0)
            &&& e.1.bool_at("webdav"@, false) || local.contains(safe_path(e.0)->0)
        }),
    decreases entries.len(),
{
    broadcast use crate::value::group_fields;

    let f = reconciled_entry(local);
    if entries.len() > 0 {
        let init = entries.drop_last();
        assert forall|k: int| 0 <= k < init.len() implies (#[trigger] init[k]).1 is Obj by {
            assert(init[k] == entries[k]);
        }
        assert(entries[entries.len() - 1] == entries.last());
        if i < init.filter_map(f).len() {
            law_listed_images_exist(init, local, i);
        } else {
            reveal_strlit("webdav");
            reveal_strlit("local");
            reveal_strlit("storage");
            assert("webdav"@.len() == 6);
            assert("local"@.len() == 5);
            assert("storage"@.len() == 7);
        }
    }
}

} // verus!
