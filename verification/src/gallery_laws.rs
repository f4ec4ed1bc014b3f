//! What is noted of images and of the tasks that make them, and what of it is shown.
use vstd::prelude::*;

use crate::assoc::{lemma_lookup_put, lookup};
use crate::clock::Moment;
use crate::image_paths::{
    day_prefix, image_path, image_suffix, last_index, lemma_pieces_append, media_of, safe_path,
    segments, stem_suffix, suffix,
};
use crate::image_service::{day_group, listed_image, packed_images, packed_names, rels_of};
use crate::image_storage::{
    clean_entry, directory_urls, found_entry, image_url, kind_suffix, reconciled_entry, shown_entry,
    source_of, storage_word, stored_entry, synced_entry, FoundFile, ImageKind, ImageSource,
};
use crate::image_tags::{all_tags, tags_of, with_new};
use crate::image_task::{
    cleaned_value, expired, failed_updates, found_task, image_address, kept_tasks, loaded_task,
    loaded_tasks, missing_task, owned, owner_of, public_part, queued_task, recovered, stored_items,
    unfinished, with_filled, with_present,
};
use crate::lists::{
    lemma_filtered_has, lemma_mapped_from, lemma_mapped_has, lemma_sorted_has,
};
use crate::sorting::{law_sorted_in_order, newest_order, sorted};
use crate::text::{
    ascii_lower, ends, joined, last_piece, pieces, precedes, skip_back, trimmed, CharClass,
};
use crate::value::{count_json, empty_object, int_json, JsonView};

verus! {

// ---------------------------------------------------------------------------
// paths
// ---------------------------------------------------------------------------

/// Images are the files that end as PNG, JPEG and WebP files do, in whatever case.
pub proof fn law_image_endings(s: Seq<char>)
    ensures
        image_suffix(s) <==> s == "png"@ || s == "jpg"@ || s == "jpeg"@ || s == "webp"@,
        kind_suffix(ImageKind::Png) == "png"@,
        kind_suffix(ImageKind::Jpeg) == "jpg"@,
        kind_suffix(ImageKind::Webp) == "webp"@,
{
}

/// The ending of a file is what follows its last dot, in lower case.
pub proof fn law_ending(stem: Seq<char>, ext: Seq<char>)
    requires
        !stem.contains('/'),
        !ext.contains('/'),
        !ext.contains('.'),
    ensures
        suffix(stem + seq!['.'] + ext) == ascii_lower(ext),
{
    let name = stem + seq!['.'] + ext;
    assert(!name.contains('/')) by {
        if name.contains('/') {
            let i = name.index_of('/');
            if i < stem.len() {
                assert(stem[i] == '/');
            } else if i > stem.len() {
                assert(ext[i - stem.len() - 1] == '/');
            }
        }
    }
    crate::text_laws::law_split_and_joined(name, '/');
    lemma_whole(name, '/');
    lemma_pieces_append(stem, ext, '.');
    lemma_whole(ext, '.');
    assert(pieces(name, '.') == pieces(stem, '.') + seq![ext]);
    crate::text::lemma_pieces_nonempty(stem, '.');
    assert(pieces(name, '.').last() == ext);
}

proof fn lemma_whole(s: Seq<char>, c: char)
    requires
        !s.contains(c),
    ensures
        pieces(s, c) == seq![s],
        last_piece(s, c) == s,
{
    crate::text::lemma_first_of(s, c);
    let i = crate::text::first_of(s, c);
    if i < s.len() {
        assert(s[i] == c);
    }
}

/// The type of an image that is served is that of its ending.
pub proof fn law_media_types(stem: Seq<char>, ext: Seq<char>)
    requires
        !ext.contains('.'),
    ensures
        ascii_lower(ext) == "jpg"@ || ascii_lower(ext) == "jpeg"@ ==> media_of(
            stem + seq!['.'] + ext,
        ) == "image/jpeg"@,
        ascii_lower(ext) == "webp"@ ==> media_of(stem + seq!['.'] + ext) == "image/webp"@,
        ascii_lower(ext) == "gif"@ ==> media_of(stem + seq!['.'] + ext) == "image/gif"@,
        ascii_lower(ext) == "png"@ ==> media_of(stem + seq!['.'] + ext) == "image/png"@,
{
    lemma_pieces_append(stem, ext, '.');
    lemma_whole(ext, '.');
    crate::text::lemma_pieces_nonempty(stem, '.');
    let name = stem + seq!['.'] + ext;
    assert(pieces(name, '.') == pieces(stem, '.') + seq![ext]);
    assert(pieces(name, '.').last() == ext);
    reveal_strlit("jpg");
    reveal_strlit("jpeg");
    reveal_strlit("webp");
    reveal_strlit("gif");
    reveal_strlit("png");
    assert("jpg"@.len() == 3 && "jpg"@[0] == 'j');
    assert("jpeg"@.len() == 4 && "jpeg"@[0] == 'j');
    assert("webp"@.len() == 4 && "webp"@[0] == 'w');
    assert("gif"@.len() == 3 && "gif"@[0] == 'g');
    assert("png"@.len() == 3 && "png"@[0] == 'p');
}

/// A safe path is the path itself without what is empty, and never leads up.
pub proof fn law_unsafe_paths(path: Seq<char>)
    ensures
        segments(path).contains(".."@) ==> safe_path(path) is None,
        segments(path).contains("."@) ==> safe_path(path) is None,
        segments(path).len() == 0 ==> safe_path(path) is None,
        segments(path).len() > 0 && !segments(path).contains("."@) && !segments(path).contains(".."@)
            ==> safe_path(path) == Some(joined(segments(path), "/"@)),
{
}

// ---------------------------------------------------------------------------
// what is noted of an image
// ---------------------------------------------------------------------------

/// The word for where an image is says exactly where it is.
pub proof fn law_storage_words(local: bool, webdav: bool)
    requires
        local || webdav,
    ensures
        storage_word(local, webdav) == "both"@ <==> local && webdav,
        storage_word(local, webdav) == "local"@ <==> local && !webdav,
        storage_word(local, webdav) == "webdav"@ <==> !local && webdav,
{
    reveal_strlit("both");
    reveal_strlit("local");
    reveal_strlit("webdav");
    assert("both"@.len() == 4);
    assert("local"@.len() == 5);
    assert("webdav"@.len() == 6);
}

/// An image is shown below the public address where there is one, and else below that of the
/// request, or below the usual one.
pub proof fn law_image_address(safe: Seq<char>, public: Seq<char>, base: Seq<char>, default: Seq<char>)
    ensures
        ends(image_url(safe, public, base, default), "/"@ + safe),
        public.len() > 0 ==> image_url(safe, public, base, default) == skip_back(
            public,
            CharClass::Just('/'),
        ) + "/"@ + safe,
        public.len() == 0 && trimmed(base).len() > 0 ==> image_url(safe, public, base, default)
            == skip_back(trimmed(base), CharClass::Just('/')) + "/images/"@ + safe,
        public.len() == 0 && trimmed(base).len() == 0 ==> image_url(safe, public, base, default)
            == skip_back(default, CharClass::Just('/')) + "/images/"@ + safe,
{
    reveal_strlit("/");
    reveal_strlit("/images/");
    assert("/"@.len() == 1);
    assert("/images/"@.len() == 8);
    let u = image_url(safe, public, base, default);
    let t = "/"@ + safe;
    assert(u.subrange(u.len() - t.len(), u.len() as int) =~= t);
}

/// What is noted of an image that was stored is what it is: its path, its size, its time, and
/// where it went.
pub proof fn law_stored_image(
    rel: Seq<char>,
    size: nat,
    at: Seq<char>,
    local: bool,
    webdav: bool,
    url: Seq<char>,
    dims: Option<(usize, usize)>,
)
    ensures
        ({
            let e = stored_entry(rel, size, at, local, webdav, url, dims);
            &&& e.str_at("rel"@) == rel
            &&& e.str_at("path"@) == rel
            &&& e.str_at("name"@) == last_piece(rel, '/')
            &&& e.str_at("date"@) == day_prefix(rel)
            &&& e.get("size"@) == Some(count_json(size))
            &&& e.str_at("created_at"@) == at
            &&& e.get("local"@) == Some(JsonView::Bool(local))
            &&& e.get("webdav"@) == Some(JsonView::Bool(webdav))
            &&& e.str_at("storage"@) == storage_word(local, webdav)
            &&& e.str_at("remote_url"@) == url
            &&& dims matches Some(d) ==> e.get("width"@) == Some(count_json(d.0 as nat)) && e.get(
                "height"@,
            ) == Some(count_json(d.1 as nat))
        }),
{
    broadcast use crate::value::group_fields;

    reveal_strlit("rel");
    reveal_strlit("path");
    reveal_strlit("name");
    reveal_strlit("date");
    reveal_strlit("size");
    reveal_strlit("created_at");
    reveal_strlit("storage");
    reveal_strlit("local");
    reveal_strlit("webdav");
    reveal_strlit("remote_url");
    reveal_strlit("width");
    reveal_strlit("height");
    reveal_strlit("url");
    assert("rel"@.len() == 3 && "rel"@[0] == 'r');
    assert("path"@.len() == 4 && "path"@[0] == 'p');
    assert("name"@.len() == 4 && "name"@[0] == 'n');
    assert("date"@.len() == 4 && "date"@[0] == 'd');
    assert("size"@.len() == 4 && "size"@[0] == 's');
    assert("created_at"@.len() == 10 && "created_at"@[0] == 'c');
    assert("storage"@.len() == 7);
    assert("local"@.len() == 5 && "local"@[0] == 'l');
    assert("webdav"@.len() == 6 && "webdav"@[0] == 'w');
    assert("remote_url"@.len() == 10 && "remote_url"@[0] == 'r');
    assert("width"@.len() == 5 && "width"@[0] == 'w');
    assert("height"@.len() == 6 && "height"@[0] == 'h');
    assert("url"@.len() == 3 && "url"@[0] == 'u');
}

/// An image that was found on disk is noted as local; one that was sent on is noted as in both
/// places, with its time as it was.
pub proof fn law_found_image(f: FoundFile, known: JsonView, url: Seq<char>)
    ensures
        ({
            let e = found_entry(f);
            &&& e.str_at("rel"@) == f.rel@
            &&& e.str_at("name"@) == f.name@
            &&& e.get("size"@) == Some(count_json(f.size as nat))
            &&& e.str_at("created_at"@) == f.created_at@
            &&& e.get("local"@) == Some(JsonView::Bool(true))
            &&& e.get("webdav"@) == Some(JsonView::Bool(false))
            &&& e.str_at("storage"@) == "local"@
            &&& pieces(f.rel@, '/').len() >= 4 ==> e.str_at("date"@) == day_prefix(f.rel@)
            &&& pieces(f.rel@, '/').len() < 4 ==> e.str_at("date"@) == f.day@
        }),
        ({
            let e = synced_entry(known, f, url);
            &&& e.str_at("rel"@) == f.rel@
            &&& e.get("size"@) == Some(count_json(f.data@.len()))
            &&& e.get("local"@) == Some(JsonView::Bool(true))
            &&& e.get("webdav"@) == Some(JsonView::Bool(true))
            &&& e.str_at("storage"@) == "both"@
            &&& e.str_at("remote_url"@) == url
            &&& known.get("created_at"@) matches Some(JsonView::Str(s)) ==> e.str_at("created_at"@) == s
            &&& known.get("created_at"@) is None ==> e.str_at("created_at"@) == f.created_at@
        }),
{
    broadcast use crate::value::group_fields;

    reveal_strlit("rel");
    reveal_strlit("path");
    reveal_strlit("name");
    reveal_strlit("date");
    reveal_strlit("size");
    reveal_strlit("created_at");
    reveal_strlit("storage");
    reveal_strlit("local");
    reveal_strlit("webdav");
    reveal_strlit("remote_url");
    reveal_strlit("width");
    reveal_strlit("height");
    reveal_strlit("url");
    assert("rel"@.len() == 3 && "rel"@[0] == 'r');
    assert("path"@.len() == 4 && "path"@[0] == 'p');
    assert("name"@.len() == 4 && "name"@[0] == 'n');
    assert("date"@.len() == 4 && "date"@[0] == 'd');
    assert("size"@.len() == 4 && "size"@[0] == 's');
    assert("created_at"@.len() == 10 && "created_at"@[0] == 'c');
    assert("storage"@.len() == 7);
    assert("local"@.len() == 5 && "local"@[0] == 'l');
    assert("webdav"@.len() == 6 && "webdav"@[0] == 'w');
    assert("remote_url"@.len() == 10 && "remote_url"@[0] == 'r');
    assert("width"@.len() == 5 && "width"@[0] == 'w');
    assert("height"@.len() == 6 && "height"@[0] == 'h');
    assert("url"@.len() == 3 && "url"@[0] == 'u');
}

/// The day of an image in a directory of its day is that of its directory.
pub proof fn law_day_of_path(year: Seq<char>, month: Seq<char>, day: Seq<char>, name: Seq<char>)
    requires
        !year.contains('/'),
        !month.contains('/'),
        !day.contains('/'),
        !name.contains('/'),
    ensures
        day_prefix(year + seq!['/'] + (month + seq!['/'] + (day + seq!['/'] + name))) == year + "-"@
            + month + "-"@ + day,
{
    let c = day + seq!['/'] + name;
    let b = month + seq!['/'] + c;
    let a = year + seq!['/'] + b;
    lemma_pieces_front(year, b);
    lemma_pieces_front(month, c);
    lemma_pieces_front(day, name);
    lemma_whole(name, '/');
    let p = pieces(a, '/');
    assert(p =~= seq![year, month, day, name]);
    assert(p.take(3) =~= seq![year, month, day]);
    let q = seq![year, month, day];
    assert(q.drop_last() =~= seq![year, month]);
    assert(seq![year, month].drop_last() =~= seq![year]);
    reveal_with_fuel(joined, 4);
    assert(joined(q, "-"@) =~= year + "-"@ + month + "-"@ + day);
}

proof fn lemma_pieces_front(x: Seq<char>, rest: Seq<char>)
    requires
        !x.contains('/'),
    ensures
        pieces(x + seq!['/'] + rest, '/') == seq![x] + pieces(rest, '/'),
{
    let s = x + seq!['/'] + rest;
    crate::text::lemma_first_of(s, '/');
    let k = crate::text::first_of(s, '/');
    assert(s[x.len() as int] == '/');
    if k < x.len() {
        assert(x[k] == '/');
    }
    assert(k == x.len());
    assert(s.take(k) =~= x);
    assert(s.skip(k + 1) =~= rest);
}

/// Only images are noted in the index.
pub proof fn law_clean_index(items: Seq<(Seq<char>, JsonView)>, e: (Seq<char>, JsonView))
    ensures
        items.filter(clean_entry()).contains(e) <==> items.contains(e) && e.1 is Obj && image_path(e.0),
{
    lemma_filtered_has(items, clean_entry(), e);
}

/// An image that is held against the disk is noted where it is, and otherwise as before.
pub proof fn law_image_where_it_is(local: Seq<Seq<char>>, rel: Seq<char>, e: JsonView, k: Seq<char>)
    requires
        e is Obj,
        safe_path(rel) == Some(rel),
        image_path(rel),
    ensures
        ({
            let r = reconciled_entry(local)((rel, e));
            let here = local.contains(rel);
            let there = e.get("webdav"@) == Some(JsonView::Bool(true));
            &&& r is Some <==> here || there
            &&& r matches Some(n) ==> {
                &&& n.0 == rel
                &&& n.1.get("local"@) == Some(JsonView::Bool(here))
                &&& n.1.str_at("storage"@) == storage_word(here, there)
                &&& k != "local"@ && k != "storage"@ ==> n.1.get(k) == e.get(k)
            }
        }),
{
    broadcast use crate::value::group_fields;

    reveal_strlit("local");
    reveal_strlit("storage");
    reveal_strlit("webdav");
    assert("local"@.len() == 5);
    assert("storage"@.len() == 7);
    assert("webdav"@.len() == 6);
}

/// An image is taken from the disk where it is there, else from the server where it is noted to be
/// there; no file that is not an image is.
pub proof fn law_image_source(entries: Seq<(Seq<char>, JsonView)>, rel: Seq<char>, local: bool)
    ensures
        source_of(entries, rel, local) == ImageSource::Local <==> local && safe_path(rel) is Some
            && image_path(safe_path(rel)->0),
        source_of(entries, rel, local) == ImageSource::Remote <==> !local && safe_path(rel) is Some
            && image_path(safe_path(rel)->0) && lookup(entries, safe_path(rel)->0) is Some && (lookup(
            entries,
            safe_path(rel)->0,
        )->0).get("webdav"@) == Some(JsonView::Bool(true)),
{
}

/// An image is listed where its day lies between the two that are asked for, with its path and its
/// address.
pub proof fn law_listed_between(
    start: Seq<char>,
    end: Seq<char>,
    public: Seq<char>,
    base: Seq<char>,
    default: Seq<char>,
    rel: Seq<char>,
    e: JsonView,
)
    requires
        e is Obj,
    ensures
        ({
            let r = shown_entry(start, end, public, base, default)((rel, e));
            let day = e.str_at("date"@);
            &&& r is Some <==> (start.len() == 0 || !precedes(day, start)) && (end.len() == 0
                || !precedes(end, day))
            &&& r matches Some(v) ==> {
                &&& v.str_at("rel"@) == rel
                &&& v.str_at("path"@) == rel
                &&& safe_path(rel) matches Some(s) ==> v.str_at("url"@) == image_url(
                    s,
                    public,
                    base,
                    default,
                )
                &&& v.get("date"@) == e.get("date"@)
                &&& v.get("size"@) == e.get("size"@)
                &&& v.get("created_at"@) == e.get("created_at"@)
                &&& v.get("storage"@) == e.get("storage"@)
            }
        }),
{
    broadcast use crate::value::group_fields;

    reveal_strlit("rel");
    reveal_strlit("path");
    reveal_strlit("name");
    reveal_strlit("date");
    reveal_strlit("size");
    reveal_strlit("created_at");
    reveal_strlit("storage");
    reveal_strlit("local");
    reveal_strlit("webdav");
    reveal_strlit("remote_url");
    reveal_strlit("width");
    reveal_strlit("height");
    reveal_strlit("url");
    assert("rel"@.len() == 3 && "rel"@[0] == 'r');
    assert("path"@.len() == 4 && "path"@[0] == 'p');
    assert("name"@.len() == 4 && "name"@[0] == 'n');
    assert("date"@.len() == 4 && "date"@[0] == 'd');
    assert("size"@.len() == 4 && "size"@[0] == 's');
    assert("created_at"@.len() == 10 && "created_at"@[0] == 'c');
    assert("storage"@.len() == 7);
    assert("local"@.len() == 5 && "local"@[0] == 'l');
    assert("webdav"@.len() == 6 && "webdav"@[0] == 'w');
    assert("remote_url"@.len() == 10 && "remote_url"@[0] == 'r');
    assert("width"@.len() == 5 && "width"@[0] == 'w');
    assert("height"@.len() == 6 && "height"@[0] == 'h');
    assert("url"@.len() == 3 && "url"@[0] == 'u');
}

/// Lists of images and of tasks begin with the newest: none stands before a newer one.
pub proof fn law_newest_first(items: Seq<JsonView>, k: Seq<char>, i: int, j: int)
    requires
        0 <= i < j < items.len(),
    ensures
        sorted(items, newest_order(k)).len() == items.len(),
        !precedes(
            sorted(items, newest_order(k))[i].str_at(k),
            sorted(items, newest_order(k))[j].str_at(k),
        ),
        forall|x: JsonView| #[trigger]
            sorted(items, newest_order(k)).contains(x) <==> items.contains(x),
{
    let lt = newest_order(k);
    let key = |v: JsonView| v.str_at(k);
    assert(forall|x: JsonView, y: JsonView| #[trigger] lt(x, y) == precedes(key(y), key(x)));
    law_sorted_in_order(items, lt, key);
    crate::sorting::law_sorted_same_items(items, lt);
    let s = sorted(items, lt);
    assert(!lt(s[j], s[i]));
    assert forall|x: JsonView| #[trigger] s.contains(x) <==> items.contains(x) by {
        lemma_sorted_has(items, lt, x);
    }
}

/// Directories on the server are made from the outside in, each below the one before.
pub proof fn law_directories(base: Seq<char>, segs: Seq<Seq<char>>, i: int)
    requires
        0 <= i < segs.len(),
    ensures
        directory_urls(base, segs).len() == segs.len(),
        directory_urls(base, segs)[i] == (if i == 0 {
            base
        } else {
            directory_urls(base, segs)[i - 1]
        }) + "/"@ + segs[i],
    decreases segs.len(),
{
    let init = segs.drop_last();
    if i < init.len() {
        law_directories(base, init, i);
        assert(init[i] == segs[i]);
    } else if init.len() > 0 {
        law_directories(base, init, init.len() - 1);
    } else {
        assert(directory_urls(base, init) == Seq::<Seq<char>>::empty());
    }
}

// ---------------------------------------------------------------------------
// the gallery
// ---------------------------------------------------------------------------

/// Every image is listed with its address, the address of its small picture and its tags.
pub proof fn law_gallery_image(base: Seq<char>, tags: Seq<(Seq<char>, JsonView)>, it: JsonView)
    requires
        it is Obj,
    ensures
        listed_image(base, tags)(it) matches Some(v) && {
            let path = it.str_at("path"@);
            &&& it.str_at("url"@).len() > 0 ==> v.str_at("url"@) == it.str_at("url"@)
            &&& it.str_at("url"@).len() == 0 ==> v.str_at("url"@) == skip_back(
                base,
                CharClass::Just('/'),
            ) + "/images/"@ + path
            &&& safe_path(path) matches Some(s) ==> v.str_at("thumbnail_url"@) == skip_back(
                base,
                CharClass::Just('/'),
            ) + "/image-thumbnails/"@ + s
            &&& lookup(tags, path) is Some ==> v.get("tags"@) == lookup(tags, path)
            &&& lookup(tags, path) is None ==> v.items_at("tags"@).len() == 0
            &&& v.get("path"@) == it.get("path"@)
            &&& v.get("date"@) == it.get("date"@)
        },
{
    broadcast use crate::value::group_fields;

    reveal_strlit("url");
    reveal_strlit("thumbnail_url");
    reveal_strlit("tags");
    reveal_strlit("path");
    reveal_strlit("date");
    assert("url"@.len() == 3);
    assert("thumbnail_url"@.len() == 13);
    assert("tags"@.len() == 4 && "tags"@[0] == 't');
    assert("path"@.len() == 4 && "path"@[0] == 'p');
    assert("date"@.len() == 4 && "date"@[0] == 'd');
}

/// The group of a day holds the images of that day.
pub proof fn law_group_of_day(items: Seq<JsonView>, day: Seq<char>, x: JsonView)
    ensures
        day_group(items, day).str_at("date"@) == day,
        day_group(items, day).items_at("items"@).contains(x) <==> items.contains(x) && x.str_at("date"@)
            == day,
{
    broadcast use crate::value::group_fields;

    reveal_strlit("date");
    reveal_strlit("items");
    assert("date"@.len() == 4);
    assert("items"@.len() == 5);
    lemma_filtered_has(items, crate::image_service::of_day(day), x);
}

/// Every image that is packed keeps its bytes, in order.
pub proof fn law_packed_bytes(images: Seq<(Seq<char>, Seq<u8>)>, i: int)
    requires
        0 <= i < images.len(),
    ensures
        packed_images(images).len() == images.len(),
        packed_images(images)[i].1 == images[i].1,
        packed_images(images)[i].0 == packed_names(rels_of(images))[i],
{
}

/// A name is split at its last dot, and the parts together are the name.
pub proof fn law_stem_and_suffix(name: Seq<char>)
    ensures
        stem_suffix(name).0 + stem_suffix(name).1 == name,
        !name.contains('.') ==> stem_suffix(name) == (name, Seq::<char>::empty()),
{
    lemma_last_index(name, '.');
    match last_index(name, '.') {
        Some(i) => {
            assert(name.take(i) + name.skip(i) =~= name);
            assert(name[i] == '.');
        },
        None => {},
    }
    assert(name + Seq::<char>::empty() =~= name);
}

proof fn lemma_last_index(s: Seq<char>, c: char)
    ensures
        last_index(s, c) matches Some(i) ==> 0 <= i < s.len() && s[i] == c,
    decreases s.len(),
{
    if s.len() > 0 && s.last() != c {
        lemma_last_index(s.drop_last(), c);
        match last_index(s, c) {
            Some(i) => {
                assert(s.drop_last()[i] == s[i]);
            },
            None => {},
        }
    }
}

/// All tags of all images are listed, each once.
pub proof fn law_all_tags(o: Seq<(Seq<char>, JsonView)>, tag: Seq<char>)
    ensures
        all_tags(o).contains(tag) <==> exists|i: int|
            0 <= i < o.len() && tags_of(Some((#[trigger] o[i]).1)).contains(tag),
        all_tags(o).no_duplicates(),
    decreases o.len(),
{
    if o.len() > 0 {
        let init = o.drop_last();
        law_all_tags(init, tag);
        let more = tags_of(Some(o.last().1));
        lemma_new(all_tags(init), more, tag);
        assert(o[o.len() - 1] == o.last());
        if exists|i: int| 0 <= i < init.len() && tags_of(Some((#[trigger] init[i]).1)).contains(tag) {
            let i = choose|i: int|
                0 <= i < init.len() && tags_of(Some((#[trigger] init[i]).1)).contains(tag);
            assert(o[i] == init[i]);
        }
        if exists|i: int| 0 <= i < o.len() && tags_of(Some((#[trigger] o[i]).1)).contains(tag) {
            let i = choose|i: int| 0 <= i < o.len() && tags_of(Some((#[trigger] o[i]).1)).contains(tag);
            if i < init.len() {
                assert(init[i] == o[i]);
            }
        }
    }
}

proof fn lemma_new(s: Seq<Seq<char>>, more: Seq<Seq<char>>, x: Seq<char>)
    requires
        s.no_duplicates(),
    ensures
        with_new(s, more).no_duplicates(),
        with_new(s, more).contains(x) <==> s.contains(x) || more.contains(x),
    decreases more.len(),
{
    if more.len() > 0 {
        let init = more.drop_last();
        lemma_new(s, init, x);
        lemma_new(s, init, more.last());
        let t = with_new(s, init);
        let u = with_new(s, more);
        assert(more[more.len() - 1] == more.last());
        if u.contains(x) {
            let k = u.index_of(x);
            if k < t.len() {
                assert(t[k] == x);
                if init.contains(x) {
                    let j = init.index_of(x);
                    assert(more[j] == x);
                }
            }
        }
        if t.contains(x) {
            let k = t.index_of(x);
            assert(u[k] == x);
        }
        if more.contains(x) && !t.contains(x) {
            let j = more.index_of(x);
            if j < init.len() {
                assert(init[j] == x);
            }
            assert(u[t.len() as int] == x);
        }
        assert forall|i: int, j: int| 0 <= i < j < u.len() implies u[i] != u[j] by {
            if j == t.len() {
                assert(t.contains(u[i]));
            }
        }
    }
}

/// The tags of an image are the texts in its list.
pub proof fn law_tags_of_list(items: Seq<JsonView>, tag: Seq<char>)
    ensures
        tags_of(Some(JsonView::Arr(items))).contains(tag) <==> items.contains(JsonView::Str(tag)),
        tags_of(None).len() == 0,
{
    let f = crate::ai::string_item();
    if items.filter_map(f).contains(tag) {
        lemma_mapped_from(items, f, tag);
        let i = choose|i: int| 0 <= i < items.len() && f(#[trigger] items[i]) == Some(tag);
        assert(items[i] == JsonView::Str(tag));
    }
    if items.contains(JsonView::Str(tag)) {
        let i = items.index_of(JsonView::Str(tag));
        lemma_mapped_has(items, f, i);
    }
}

// ---------------------------------------------------------------------------
// tasks
// ---------------------------------------------------------------------------

/// A task that is submitted waits with what was asked for.
pub proof fn law_queued_task(
    owner: Seq<char>,
    id: Seq<char>,
    mode: Seq<char>,
    model: Seq<char>,
    size: Seq<char>,
    quality: Seq<char>,
    now: Seq<char>,
    ts: JsonView,
)
    ensures
        ({
            let t = queued_task(owner, id, mode, model, size, quality, now, ts);
            &&& t.str_at("id"@) == id
            &&& t.str_at("owner_id"@) == owner
            &&& t.str_at("status"@) == "queued"@
            &&& t.str_at("mode"@) == mode
            &&& trimmed(model).len() > 0 ==> t.str_at("model"@) == trimmed(model)
            &&& trimmed(model).len() == 0 ==> t.str_at("model"@) == "gpt-image-2"@
            &&& t.str_at("size"@) == trimmed(size)
            &&& trimmed(quality).len() > 0 ==> t.str_at("quality"@) == trimmed(quality)
            &&& trimmed(quality).len() == 0 ==> t.str_at("quality"@) == "auto"@
            &&& t.str_at("created_at"@) == now
            &&& t.str_at("updated_at"@) == now
            &&& t.get("created_ts"@) == Some(ts)
            &&& unfinished(t)
        }),
{
    broadcast use crate::value::group_fields;

    reveal_strlit("id");
    reveal_strlit("owner_id");
    reveal_strlit("status");
    reveal_strlit("mode");
    reveal_strlit("model");
    reveal_strlit("size");
    reveal_strlit("quality");
    reveal_strlit("created_at");
    reveal_strlit("updated_at");
    reveal_strlit("created_ts");
    reveal_strlit("updated_ts");
    reveal_strlit("started_ts");
    reveal_strlit("duration_ms");
    reveal_strlit("data");
    reveal_strlit("usage");
    reveal_strlit("error");
    reveal_strlit("conversation_id");
    reveal_strlit("progress");
    assert("id"@.len() == 2);
    assert("owner_id"@.len() == 8 && "owner_id"@[0] == 'o');
    assert("status"@.len() == 6);
    assert("mode"@.len() == 4 && "mode"@[0] == 'm');
    assert("model"@.len() == 5 && "model"@[0] == 'm');
    assert("size"@.len() == 4 && "size"@[0] == 's');
    assert("quality"@.len() == 7);
    assert("created_at"@.len() == 10 && "created_at"@[0] == 'c' && "created_at"@[8] == 'a');
    assert("updated_at"@.len() == 10 && "updated_at"@[0] == 'u' && "updated_at"@[8] == 'a');
    assert("created_ts"@.len() == 10 && "created_ts"@[0] == 'c' && "created_ts"@[8] == 't');
    assert("updated_ts"@.len() == 10 && "updated_ts"@[0] == 'u' && "updated_ts"@[8] == 't');
    assert("started_ts"@.len() == 10 && "started_ts"@[0] == 's');
    assert("duration_ms"@.len() == 11);
    assert("data"@.len() == 4 && "data"@[0] == 'd');
    assert("usage"@.len() == 5 && "usage"@[0] == 'u');
    assert("error"@.len() == 5 && "error"@[0] == 'e');
    assert("conversation_id"@.len() == 15);
    assert("progress"@.len() == 8 && "progress"@[0] == 'p');
}

/// What is shown of a task is what it says, and not who owns it.
pub proof fn law_shown_task(t: JsonView)
    ensures
        ({
            let p = public_part(t);
            &&& p.at("id"@) == t.at("id"@)
            &&& p.at("status"@) == t.at("status"@)
            &&& p.at("mode"@) == t.at("mode"@)
            &&& p.at("model"@) == t.at("model"@)
            &&& p.at("size"@) == t.at("size"@)
            &&& p.at("quality"@) == t.at("quality"@)
            &&& p.at("created_at"@) == t.at("created_at"@)
            &&& p.at("updated_at"@) == t.at("updated_at"@)
            &&& p.at("data"@) == t.at("data"@)
            &&& p.at("usage"@) == t.at("usage"@)
            &&& p.at("duration_ms"@) == t.at("duration_ms"@)
            &&& t.str_at("error"@).len() > 0 ==> p.get("error"@) == t.get("error"@)
            &&& t.str_at("error"@).len() == 0 ==> p.get("error"@) is None
            &&& t.str_at("progress"@).len() > 0 ==> p.get("progress"@) == t.get("progress"@)
            &&& t.str_at("conversation_id"@).len() > 0 ==> p.get("conversation_id"@) == t.get(
                "conversation_id"@,
            )
            &&& p.get("owner_id"@) is None
        }),
{
    reveal_strlit("id");
    reveal_strlit("owner_id");
    reveal_strlit("status");
    reveal_strlit("mode");
    reveal_strlit("model");
    reveal_strlit("size");
    reveal_strlit("quality");
    reveal_strlit("created_at");
    reveal_strlit("updated_at");
    reveal_strlit("created_ts");
    reveal_strlit("updated_ts");
    reveal_strlit("started_ts");
    reveal_strlit("duration_ms");
    reveal_strlit("data");
    reveal_strlit("usage");
    reveal_strlit("error");
    reveal_strlit("conversation_id");
    reveal_strlit("progress");
    assert("id"@.len() == 2);
    assert("owner_id"@.len() == 8 && "owner_id"@[0] == 'o');
    assert("status"@.len() == 6);
    assert("mode"@.len() == 4 && "mode"@[0] == 'm');
    assert("model"@.len() == 5 && "model"@[0] == 'm');
    assert("size"@.len() == 4 && "size"@[0] == 's');
    assert("quality"@.len() == 7);
    assert("created_at"@.len() == 10 && "created_at"@[0] == 'c' && "created_at"@[8] == 'a');
    assert("updated_at"@.len() == 10 && "updated_at"@[0] == 'u' && "updated_at"@[8] == 'a');
    assert("created_ts"@.len() == 10 && "created_ts"@[0] == 'c' && "created_ts"@[8] == 't');
    assert("updated_ts"@.len() == 10 && "updated_ts"@[0] == 'u' && "updated_ts"@[8] == 't');
    assert("started_ts"@.len() == 10 && "started_ts"@[0] == 's');
    assert("duration_ms"@.len() == 11);
    assert("data"@.len() == 4 && "data"@[0] == 'd');
    assert("usage"@.len() == 5 && "usage"@[0] == 'u');
    assert("error"@.len() == 5 && "error"@[0] == 'e');
    assert("conversation_id"@.len() == 15);
    assert("progress"@.len() == 8 && "progress"@[0] == 'p');
    let o0 = empty_object().put("id"@, t.at("id"@)).put("status"@, t.at("status"@)).put(
        "mode"@,
        t.at("mode"@),
    ).put("model"@, t.at("model"@)).put("size"@, t.at("size"@)).put(
        "quality"@,
        t.at("quality"@),
    ).put("created_at"@, t.at("created_at"@)).put("updated_at"@, t.at("updated_at"@));
    assert(o0.get("id"@) == Some(t.at("id"@)) && o0.get("status"@) == Some(t.at("status"@))
        && o0.get("mode"@) == Some(t.at("mode"@)) && o0.get("model"@) == Some(t.at("model"@))
        && o0.get("size"@) == Some(t.at("size"@)) && o0.get("quality"@) == Some(t.at("quality"@))
        && o0.get("created_at"@) == Some(t.at("created_at"@)) && o0.get("updated_at"@) == Some(
        t.at("updated_at"@),
    ) && o0.get("conversation_id"@) is None && o0.get("data"@) is None && o0.get("usage"@) is None
        && o0.get("error"@) is None && o0.get("progress"@) is None && o0.get("duration_ms"@) is None
        && o0.get("owner_id"@) is None) by {
        broadcast use crate::value::group_fields;

    }
    let o1 = with_filled(o0, t, "conversation_id"@);
    lemma_filled(o0, t, "conversation_id"@);
    let o2 = with_present(o1, t, "data"@);
    lemma_present(o1, t, "data"@);
    let o3 = with_present(o2, t, "usage"@);
    lemma_present(o2, t, "usage"@);
    let o4 = with_filled(o3, t, "error"@);
    lemma_filled(o3, t, "error"@);
    let o5 = with_filled(o4, t, "progress"@);
    lemma_filled(o4, t, "progress"@);
    lemma_present(o5, t, "duration_ms"@);
}

proof fn lemma_filled(o: JsonView, t: JsonView, k: Seq<char>)
    requires
        o is Obj,
    ensures
        with_filled(o, t, k) is Obj,
        with_filled(o, t, k).get(k) == (if t.str_at(k).len() > 0 {
            t.get(k)
        } else {
            o.get(k)
        }),
        forall|q: Seq<char>| q != k ==> #[trigger] with_filled(o, t, k).get(q) == o.get(q),
{
    broadcast use crate::value::group_fields;

}

proof fn lemma_present(o: JsonView, t: JsonView, k: Seq<char>)
    requires
        o is Obj,
    ensures
        with_present(o, t, k) is Obj,
        with_present(o, t, k).get(k) == (if !(t.at(k) is Null) {
            t.get(k)
        } else {
            o.get(k)
        }),
        forall|q: Seq<char>| q != k ==> #[trigger] with_present(o, t, k).get(q) == o.get(q),
{
    broadcast use crate::value::group_fields;

}

/// Stored tasks are read as they were stored; a state that is none becomes an error.
pub proof fn law_loaded_task(item: JsonView, now: Seq<char>)
    ensures
        loaded_task(item, now) is Some <==> item is Obj && cleaned_value(item.get("id"@), ""@).len() > 0
            && cleaned_value(item.get("owner_id"@), ""@).len() > 0,
        loaded_task(item, now) matches Some(e) ==> {
            let id = cleaned_value(item.get("id"@), ""@);
            let owner = cleaned_value(item.get("owner_id"@), ""@);
            let status = cleaned_value(item.get("status"@), ""@);
            let t = e.1;
            &&& e.0 == owner + ":"@ + id
            &&& t.str_at("id"@) == id
            &&& t.str_at("owner_id"@) == owner
            &&& status == "queued"@ || status == "running"@ || status == "success"@ || status
                == "error"@ ==> t.str_at("status"@) == status
            &&& !(status == "queued"@ || status == "running"@ || status == "success"@ || status
                == "error"@) ==> t.str_at("status"@) == "error"@
            &&& item.str_at("mode"@) == "edit"@ ==> t.str_at("mode"@) == "edit"@
            &&& item.str_at("mode"@) != "edit"@ ==> t.str_at("mode"@) == "generate"@
            &&& t.str_at("model"@) == cleaned_value(item.get("model"@), "gpt-image-2"@)
            &&& t.str_at("size"@) == cleaned_value(item.get("size"@), ""@)
            &&& t.str_at("quality"@) == cleaned_value(item.get("quality"@), "auto"@)
            &&& item.at("data"@) is Arr ==> t.get("data"@) == item.get("data"@)
            &&& item.at("usage"@) is Obj ==> t.get("usage"@) == item.get("usage"@)
            &&& cleaned_value(item.get("error"@), ""@).len() > 0 ==> t.str_at("error"@)
                == cleaned_value(item.get("error"@), ""@)
            &&& t.at("duration_ms"@) == item.at("duration_ms"@)
            &&& t.at("created_ts"@) == item.at("created_ts"@)
        },
{
    broadcast use crate::value::group_fields;

    reveal_strlit("id");
    reveal_strlit("owner_id");
    reveal_strlit("status");
    reveal_strlit("mode");
    reveal_strlit("model");
    reveal_strlit("size");
    reveal_strlit("quality");
    reveal_strlit("created_at");
    reveal_strlit("updated_at");
    reveal_strlit("created_ts");
    reveal_strlit("updated_ts");
    reveal_strlit("started_ts");
    reveal_strlit("duration_ms");
    reveal_strlit("data");
    reveal_strlit("usage");
    reveal_strlit("error");
    reveal_strlit("conversation_id");
    reveal_strlit("progress");
    assert("id"@.len() == 2);
    assert("owner_id"@.len() == 8 && "owner_id"@[0] == 'o');
    assert("status"@.len() == 6);
    assert("mode"@.len() == 4 && "mode"@[0] == 'm');
    assert("model"@.len() == 5 && "model"@[0] == 'm');
    assert("size"@.len() == 4 && "size"@[0] == 's');
    assert("quality"@.len() == 7);
    assert("created_at"@.len() == 10 && "created_at"@[0] == 'c' && "created_at"@[8] == 'a');
    assert("updated_at"@.len() == 10 && "updated_at"@[0] == 'u' && "updated_at"@[8] == 'a');
    assert("created_ts"@.len() == 10 && "created_ts"@[0] == 'c' && "created_ts"@[8] == 't');
    assert("updated_ts"@.len() == 10 && "updated_ts"@[0] == 'u' && "updated_ts"@[8] == 't');
    assert("started_ts"@.len() == 10 && "started_ts"@[0] == 's');
    assert("duration_ms"@.len() == 11);
    assert("data"@.len() == 4 && "data"@[0] == 'd');
    assert("usage"@.len() == 5 && "usage"@[0] == 'u');
    assert("error"@.len() == 5 && "error"@[0] == 'e');
    assert("conversation_id"@.len() == 15);
    assert("progress"@.len() == 8 && "progress"@[0] == 'p');
}

/// Every task that was stored is there after reading, under its owner and its id.
pub proof fn law_loaded_tasks(items: Seq<JsonView>, now: Seq<char>, key: Seq<char>)
    ensures
        lookup(loaded_tasks(items, now), key) is Some <==> exists|i: int|
            0 <= i < items.len() && (loaded_task(#[trigger] items[i], now) matches Some(t) && t.0
                == key),
        stored_items(JsonView::Arr(items)) == items,
    decreases items.len(),
{
    if items.len() > 0 {
        let init = items.drop_last();
        law_loaded_tasks(init, now, key);
        assert(items[items.len() - 1] == items.last());
        match loaded_task(items.last(), now) {
            Some(t) => lemma_lookup_put(loaded_tasks(init, now), t.0, t.1, key),
            None => {},
        }
        if lookup(loaded_tasks(init, now), key) is Some {
            let i = choose|i: int|
                0 <= i < init.len() && (loaded_task(#[trigger] init[i], now) matches Some(t) && t.0
                    == key);
            assert(items[i] == init[i]);
        }
        if exists|i: int|
            0 <= i < items.len() && (loaded_task(#[trigger] items[i], now) matches Some(t) && t.0
                == key) {
            let i = choose|i: int|
                0 <= i < items.len() && (loaded_task(#[trigger] items[i], now) matches Some(t) && t.0
                    == key);
            if i < init.len() {
                assert(init[i] == items[i]);
            }
        }
    }
}

/// A task that was interrupted is an error afterwards, and a task that had ended stays as it was.
pub proof fn law_interrupted_task(t: JsonView, now: Seq<char>)
    requires
        t is Obj,
    ensures
        t.str_at("status"@) == "queued"@ || t.str_at("status"@) == "running"@ ==> {
            &&& recovered(t, now).str_at("status"@) == "error"@
            &&& recovered(t, now).str_at("error"@)
                == "服务已重启，未完成的图片任务已中断"@
            &&& recovered(t, now).str_at("updated_at"@) == now
            &&& recovered(t, now).get("id"@) == t.get("id"@)
            &&& recovered(t, now).get("owner_id"@) == t.get("owner_id"@)
        },
        t.str_at("status"@) == "success"@ || t.str_at("status"@) == "error"@ ==> recovered(t, now) == t,
{
    broadcast use crate::value::group_fields;

    reveal_strlit("id");
    reveal_strlit("owner_id");
    reveal_strlit("status");
    reveal_strlit("mode");
    reveal_strlit("model");
    reveal_strlit("size");
    reveal_strlit("quality");
    reveal_strlit("created_at");
    reveal_strlit("updated_at");
    reveal_strlit("created_ts");
    reveal_strlit("updated_ts");
    reveal_strlit("started_ts");
    reveal_strlit("duration_ms");
    reveal_strlit("data");
    reveal_strlit("usage");
    reveal_strlit("error");
    reveal_strlit("conversation_id");
    reveal_strlit("progress");
    reveal_strlit("queued");
    reveal_strlit("running");
    reveal_strlit("success");
    assert("id"@.len() == 2);
    assert("owner_id"@.len() == 8 && "owner_id"@[0] == 'o');
    assert("status"@.len() == 6 && "status"@[0] == 's');
    assert("mode"@.len() == 4 && "mode"@[0] == 'm');
    assert("model"@.len() == 5 && "model"@[0] == 'm');
    assert("size"@.len() == 4 && "size"@[0] == 's');
    assert("quality"@.len() == 7 && "quality"@[0] == 'q');
    assert("created_at"@.len() == 10 && "created_at"@[0] == 'c' && "created_at"@[8] == 'a');
    assert("updated_at"@.len() == 10 && "updated_at"@[0] == 'u' && "updated_at"@[8] == 'a');
    assert("created_ts"@.len() == 10 && "created_ts"@[0] == 'c' && "created_ts"@[8] == 't');
    assert("updated_ts"@.len() == 10 && "updated_ts"@[0] == 'u' && "updated_ts"@[8] == 't');
    assert("started_ts"@.len() == 10 && "started_ts"@[0] == 's');
    assert("duration_ms"@.len() == 11);
    assert("data"@.len() == 4 && "data"@[0] == 'd');
    assert("usage"@.len() == 5 && "usage"@[0] == 'u');
    assert("error"@.len() == 5 && "error"@[0] == 'e');
    assert("conversation_id"@.len() == 15);
    assert("progress"@.len() == 8 && "progress"@[0] == 'p');
    assert("queued"@.len() == 6 && "queued"@[0] == 'q');
    assert("running"@.len() == 7 && "running"@[0] == 'r');
    assert("success"@.len() == 7 && "success"@[0] == 's');
}

/// An ended task is forgotten once its days are over; one that has not ended never is.
pub proof fn law_forgotten_task(t: JsonView, stamp: i64, days: i64, now: Moment)
    requires
        days >= 1,
    ensures
        t.str_at("status"@) == "success"@ || t.str_at("status"@) == "error"@ ==> (expired(
            t,
            stamp,
            days,
            now,
        ) <==> (stamp + days * 24 * 60 * 60) * 1_000_000_000 < now.total()),
        t.str_at("status"@) == "queued"@ || t.str_at("status"@) == "running"@ ==> !expired(
            t,
            stamp,
            days,
            now,
        ),
{
    reveal_strlit("queued");
    reveal_strlit("running");
    reveal_strlit("success");
    reveal_strlit("error");
    assert("queued"@.len() == 6);
    assert("running"@.len() == 7 && "running"@[0] == 'r');
    assert("success"@.len() == 7 && "success"@[0] == 's');
    assert("error"@.len() == 5);
    assert(days * 24 * 60 * 60 == days * 86_400) by (nonlinear_arith);
}

/// Cleaning up keeps every task that has not expired, and drops every one that has.
pub proof fn law_kept_tasks(
    tasks: Seq<(Seq<char>, JsonView)>,
    stamps: Seq<i64>,
    days: i64,
    now: Moment,
    e: (Seq<char>, JsonView),
)
    ensures
        kept_tasks(tasks, stamps, days, now).contains(e) <==> exists|i: int|
            0 <= i < tasks.len() && #[trigger] tasks[i] == e && !expired(e.1, stamps[i], days, now),
    decreases tasks.len(),
{
    if tasks.len() > 0 {
        let init = tasks.drop_last();
        law_kept_tasks(init, stamps, days, now, e);
        let k = kept_tasks(init, stamps, days, now);
        let all = kept_tasks(tasks, stamps, days, now);
        assert(tasks[tasks.len() - 1] == tasks.last());
        if all.contains(e) {
            let j = all.index_of(e);
            if j < k.len() {
                assert(k[j] == e);
                let i = choose|i: int|
                    0 <= i < init.len() && #[trigger] init[i] == e && !expired(e.1, stamps[i], days, now);
                assert(tasks[i] == e);
            }
        }
        if exists|i: int|
            0 <= i < tasks.len() && #[trigger] tasks[i] == e && !expired(e.1, stamps[i], days, now) {
            let i = choose|i: int|
                0 <= i < tasks.len() && #[trigger] tasks[i] == e && !expired(e.1, stamps[i], days, now);
            if i < init.len() {
                assert(init[i] == e);
                let j = k.index_of(e);
                assert(all[j] == e);
            } else {
                assert(all[k.len() as int] == e);
            }
        }
    }
}

/// Everyone sees their own tasks, and nobody else's.
pub proof fn law_own_tasks(tasks: Seq<(Seq<char>, JsonView)>, owner: Seq<char>, t: JsonView)
    ensures
        tasks.filter_map(owned(owner)).contains(t) <==> t.get("owner_id"@) == Some(
            JsonView::Str(owner),
        ) && exists|i: int| 0 <= i < tasks.len() && (#[trigger] tasks[i]).1 == t,
{
    let f = owned(owner);
    if tasks.filter_map(f).contains(t) {
        lemma_mapped_from(tasks, f, t);
        let i = choose|i: int| 0 <= i < tasks.len() && f(#[trigger] tasks[i]) == Some(t);
        assert(tasks[i].1 == t);
    }
    if t.get("owner_id"@) == Some(JsonView::Str(owner)) && exists|i: int|
        0 <= i < tasks.len() && (#[trigger] tasks[i]).1 == t {
        let i = choose|i: int| 0 <= i < tasks.len() && (#[trigger] tasks[i]).1 == t;
        lemma_mapped_has(tasks, f, i);
    }
}

/// A task that is asked for by its id is found under the one who asks, or named as missing.
pub proof fn law_asked_task(tasks: Seq<(Seq<char>, JsonView)>, owner: Seq<char>, id: Seq<char>)
    ensures
        found_task(tasks, owner)(id) is Some <==> lookup(tasks, owner + ":"@ + id) is Some,
        missing_task(tasks, owner)(id) <==> lookup(tasks, owner + ":"@ + id) is None,
        lookup(tasks, owner + ":"@ + id) matches Some(t) ==> (found_task(tasks, owner)(id)->0).0
            == public_part(t),
{
}

/// The owner of a task is the one who asks, by id; those without one share a name.
pub proof fn law_owner(identity: JsonView, s: Seq<char>)
    ensures
        identity.get("id"@) == Some(JsonView::Str(s)) && trimmed(s).len() > 0 ==> owner_of(identity)
            == trimmed(s),
        identity.get("id"@) is None ==> owner_of(identity) == "anonymous"@,
{
    reveal_strlit("");
    reveal_strlit("anonymous");
    assert(""@.len() == 0);
    assert("anonymous"@.len() == 9);
    crate::text::lemma_strip_len(""@, CharClass::White);
}

/// A task that failed says so, with its message and no images.
pub proof fn law_failed_updates(message: Seq<char>, ms: int)
    ensures
        failed_updates(message, ms).str_at("status"@) == "error"@,
        failed_updates(message, ms).str_at("error"@) == message,
        failed_updates(message, ms).items_at("data"@).len() == 0,
        failed_updates(message, ms).get("duration_ms"@) == Some(int_json(ms)),
{
    broadcast use crate::value::group_fields;

    reveal_strlit("status");
    reveal_strlit("error");
    reveal_strlit("data");
    reveal_strlit("duration_ms");
    assert("status"@.len() == 6);
    assert("error"@.len() == 5);
    assert("data"@.len() == 4);
    assert("duration_ms"@.len() == 11);
}

/// The addresses of images are those that the answer gives.
pub proof fn law_image_addresses(items: Seq<JsonView>, url: Seq<char>)
    ensures
        items.filter_map(image_address()).contains(url) <==> url.len() > 0 && exists|i: int|
            0 <= i < items.len() && (#[trigger] items[i]).str_at("url"@) == url,
{
    let f = image_address();
    if items.filter_map(f).contains(url) {
        lemma_mapped_from(items, f, url);
        let i = choose|i: int| 0 <= i < items.len() && f(#[trigger] items[i]) == Some(url);
        assert(items[i].str_at("url"@) == url);
    }
    if url.len() > 0 && exists|i: int|
        0 <= i < items.len() && (#[trigger] items[i]).str_at("url"@) == url {
        let i = choose|i: int| 0 <= i < items.len() && (#[trigger] items[i]).str_at("url"@) == url;
        lemma_mapped_has(items, f, i);
    }
}

} // verus!
