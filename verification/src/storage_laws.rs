//! What holds of stored images: a new one has a path of its own kind, and what was stored is
//! found.
use vstd::prelude::*;

use crate::assoc::{lemma_lookup_put, put_entry};
use crate::digest::{hex_text, sha256};
use crate::image_paths::{
    filled, image_path, lemma_pieces_append, lemma_pieces_joined, safe_path, segments, suffix,
};
use crate::image_storage::{
    image_kind, kind_suffix, noted_remote, source_of, stored_entry, ImageKind, ImageSource,
};
use crate::naming::lemma_decimal;
use crate::text::{
    all_digits, ascii_lower, decimal, int_text, joined, last_piece, pieces, replaced, skip_front,
    trimmed, CharClass,
};
use crate::value::{JsonView, hex_char};

verus! {

/// Whether a text is made of letters, digits, hyphens and underscores.
spec fn plain(s: Seq<char>) -> bool {
    forall|i: int| 0 <= i < s.len() ==> plain_char(#[trigger] s[i])
}

spec fn plain_char(c: char) -> bool {
    'a' <= c <= 'z' || '0' <= c <= '9' || c == '-' || c == '_'
}

proof fn lemma_plain_decimal(n: nat)
    ensures
        plain(decimal(n)),
        decimal(n).len() > 0,
{
    lemma_decimal(n);
}

proof fn lemma_plain_int(n: int)
    ensures
        plain(int_text(n)),
        int_text(n).len() > 0,
{
    if n < 0 {
        lemma_plain_decimal((-n) as nat);
        let d = decimal((-n) as nat);
        assert forall|i: int| 0 <= i < int_text(n).len() implies plain_char(
            #[trigger] int_text(n)[i],
        ) by {
            if i > 0 {
                assert(int_text(n)[i] == d[i - 1]);
            }
        }
    } else {
        lemma_plain_decimal(n as nat);
    }
}

proof fn lemma_plain_hex(b: Seq<u8>)
    ensures
        plain(hex_text(b)),
    decreases b.len(),
{
    if b.len() > 0 {
        lemma_plain_hex(b.drop_last());
        let head = hex_text(b.drop_last());
        let hi = b.last() as int / 16;
        let lo = b.last() as int % 16;
        assert(plain_char(hex_char(hi)));
        assert(plain_char(hex_char(lo)));
        assert forall|i: int| 0 <= i < hex_text(b).len() implies plain_char(
            #[trigger] hex_text(b)[i],
        ) by {
            if i < head.len() {
                assert(hex_text(b)[i] == head[i]);
            }
        }
    }
}

proof fn lemma_unreplaced(s: Seq<char>, c: char, with: Seq<char>)
    requires
        !s.contains(c),
    ensures
        replaced(s, c, with) == s,
    decreases s.len(),
{
    if s.len() > 0 {
        let init = s.drop_last();
        assert(s.contains(s.last())) by {
            assert(s[s.len() - 1] == s.last());
        }
        assert(!init.contains(c)) by {
            if init.contains(c) {
                let i = init.index_of(c);
                assert(s[i] == c);
            }
        }
        lemma_unreplaced(init, c, with);
        assert(init + seq![s.last()] =~= s);
    } else {
        assert(replaced(s, c, with) =~= s);
    }
}

proof fn lemma_all_filled(v: Seq<Seq<char>>)
    requires
        forall|i: int| 0 <= i < v.len() ==> (#[trigger] v[i]).len() > 0,
    ensures
        v.filter(filled()) == v,
    decreases v.len(),
{
    reveal(Seq::filter);
    if v.len() > 0 {
        let init = v.drop_last();
        assert forall|i: int| 0 <= i < init.len() implies (#[trigger] init[i]).len() > 0 by {
            assert(init[i] == v[i]);
        }
        lemma_all_filled(init);
        assert(v[v.len() - 1] == v.last());
        assert(init.push(v.last()) =~= v);
    } else {
        assert(v.filter(filled()) =~= v);
    }
}

/// Whether a character can stand in the path of a new image.
spec fn path_char(c: char) -> bool {
    plain_char(c) || c == '.' || c == '/'
}

proof fn lemma_joined_chars(parts: Seq<Seq<char>>)
    requires
        forall|i: int, k: int|
            0 <= i < parts.len() && 0 <= k < parts[i].len() ==> path_char(#[trigger] parts[i][k]),
        forall|i: int| 0 <= i < parts.len() ==> (#[trigger] parts[i]).len() > 0,
        parts.len() > 0,
    ensures
        forall|k: int|
            0 <= k < joined(parts, seq!['/']).len() ==> path_char(
                #[trigger] joined(parts, seq!['/'])[k],
            ),
        joined(parts, seq!['/']).len() > 0,
        joined(parts, seq!['/'])[0] == parts[0][0],
        joined(parts, seq!['/']).last() == parts.last().last(),
    decreases parts.len(),
{
    if parts.len() > 1 {
        let init = parts.drop_last();
        assert forall|i: int, k: int| 0 <= i < init.len() && 0 <= k < init[i].len() implies path_char(
            #[trigger] init[i][k],
        ) by {
            assert(init[i] == parts[i]);
            assert(path_char(parts[i][k]));
        }
        assert forall|i: int| 0 <= i < init.len() implies (#[trigger] init[i]).len() > 0 by {
            assert(init[i] == parts[i]);
        }
        lemma_joined_chars(init);
        let head = joined(init, seq!['/']);
        let all = joined(parts, seq!['/']);
        let n = parts.len() - 1;
        assert(parts[n] == parts.last());
        assert(parts[n].len() > 0);
        assert forall|k: int| 0 <= k < all.len() implies path_char(#[trigger] all[k]) by {
            if k < head.len() {
                assert(all[k] == head[k]);
            } else if k > head.len() {
                assert(all[k] == parts[n][k - head.len() - 1]);
            }
        }
        assert(init[0] == parts[0]);
        assert(all[0] == head[0]);
    }
}

/// The name of a new image.
spec fn new_name(second: int, data: Seq<u8>) -> Seq<char> {
    int_text(second) + "_"@ + hex_text(sha256(data)) + "."@ + kind_suffix(image_kind(data))
}

proof fn lemma_suffix_kept(k: ImageKind)
    ensures
        kind_suffix(k).len() >= 3,
        plain(kind_suffix(k)),
        !kind_suffix(k).contains('.'),
        !kind_suffix(k).contains('/'),
        ascii_lower(kind_suffix(k)) == kind_suffix(k),
        kind_suffix(k) == "png"@ || kind_suffix(k) == "jpg"@ || kind_suffix(k) == "webp"@,
{
    reveal_strlit("png");
    reveal_strlit("jpg");
    reveal_strlit("webp");
    let s = kind_suffix(k);
    assert(s.len() >= 3);
    assert(plain(s));
    assert(ascii_lower(s) =~= s);
}

/// A new image is stored under a path that is its own normalized form and that of an image, where
/// the day is written in digits between slashes.
pub proof fn law_new_path_is_an_image(days: Seq<Seq<char>>, second: int, data: Seq<u8>)
    requires
        days.len() > 0,
        forall|i: int| 0 <= i < days.len() ==> (#[trigger] days[i]).len() > 0 && all_digits(days[i]),
    ensures
        ({
            let path = joined(days, "/"@) + "/"@ + int_text(second) + "_"@ + hex_text(sha256(data))
                + "."@ + kind_suffix(image_kind(data));
            safe_path(path) == Some(path) && image_path(path)
        }),
{
    reveal_strlit("/");
    reveal_strlit("_");
    reveal_strlit(".");
    reveal_strlit("..");
    assert("/"@ =~= seq!['/']);
    assert("_"@ =~= seq!['_']);
    assert("."@ =~= seq!['.']);
    let ext = kind_suffix(image_kind(data));
    lemma_suffix_kept(image_kind(data));
    lemma_plain_int(second);
    lemma_plain_hex(sha256(data));
    let stem = int_text(second) + "_"@ + hex_text(sha256(data));
    let name = new_name(second, data);
    assert(plain(stem)) by {
        let a = int_text(second);
        let b = hex_text(sha256(data));
        assert forall|i: int| 0 <= i < stem.len() implies plain_char(#[trigger] stem[i]) by {
            if i < a.len() {
                assert(stem[i] == a[i]);
            } else if i > a.len() {
                assert(stem[i] == b[i - a.len() - 1]);
            }
        }
    }
    assert forall|i: int| 0 <= i < name.len() implies plain_char(#[trigger] name[i]) || name[i]
        == '.' by {
        if i < stem.len() {
            assert(name[i] == stem[i]);
        } else if i > stem.len() {
            assert(name[i] == ext[i - stem.len() - 1]);
        }
    }
    let parts = days.push(name);
    let path = joined(days, "/"@) + "/"@ + int_text(second) + "_"@ + hex_text(sha256(data)) + "."@
        + ext;
    assert(parts.drop_last() =~= days);
    assert(path =~= joined(days, "/"@) + "/"@ + name);
    assert(joined(parts, "/"@) =~= path);
    assert forall|i: int, k: int| 0 <= i < parts.len() && 0 <= k < parts[i].len() implies path_char(
        #[trigger] parts[i][k],
    ) by {
        if i < days.len() {
            assert(parts[i] == days[i]);
            assert('0' <= days[i][k] <= '9');
        } else {
            assert(plain_char(name[k]) || name[k] == '.');
        }
    }
    assert forall|i: int| 0 <= i < parts.len() implies (#[trigger] parts[i]).len() > 0 by {
        if i < days.len() {
            assert(parts[i] == days[i]);
        }
    }
    lemma_joined_chars(parts);
    assert(parts[0] == days[0]);
    assert('0' <= days[0][0] <= '9');
    assert(path.last() == ext.last()) by {
        assert(parts.last() == name);
        assert(name.last() == ext.last());
    }
    assert(plain_char(ext[ext.len() - 1]));
    assert(trimmed(path) == path);
    assert(!path.contains('\\')) by {
        if path.contains('\\') {
            let i = path.index_of('\\');
            assert(path_char(path[i]));
        }
    }
    lemma_unreplaced(path, '\\', "/"@);
    assert(skip_front(path, CharClass::Just('/')) == path);
    assert forall|i: int| 0 <= i < parts.len() implies !(#[trigger] parts[i]).contains('/') by {
        if parts[i].contains('/') {
            let k = parts[i].index_of('/');
            if i < days.len() {
                assert(parts[i] == days[i]);
                assert('0' <= days[i][k] <= '9');
            } else {
                assert(plain_char(name[k]) || name[k] == '.');
            }
        }
    }
    lemma_pieces_joined(parts, '/');
    lemma_all_filled(parts);
    assert(segments(path) == parts);
    assert(!parts.contains("."@)) by {
        if parts.contains("."@) {
            let i = parts.index_of("."@);
            if i < days.len() {
                assert('0' <= days[i][0] <= '9');
            }
        }
    }
    assert(!parts.contains(".."@)) by {
        if parts.contains(".."@) {
            let i = parts.index_of(".."@);
            if i < days.len() {
                assert('0' <= days[i][0] <= '9');
            } else {
                assert(name.len() > 2);
            }
        }
    }
    assert(safe_path(path) == Some(path));
    assert(last_piece(path, '/') == name);
    assert(name =~= stem + seq!['.'] + ext);
    lemma_pieces_append(stem, ext, '.');
    crate::text::lemma_pieces_nonempty(stem, '.');
    assert(pieces(name, '.').last() == ext);
    assert(suffix(path) == ext);
}

/// An image that was stored is found: locally where its file is there, else on the server where it
/// was stored there.
pub proof fn law_saved_image_found(
    entries: Seq<(Seq<char>, JsonView)>,
    rel: Seq<char>,
    size: nat,
    created_at: Seq<char>,
    local: bool,
    webdav: bool,
    remote_url: Seq<char>,
    dims: Option<(usize, usize)>,
)
    requires
        safe_path(rel) == Some(rel),
        image_path(rel),
        local || webdav,
    ensures
        source_of(
            put_entry(
                entries,
                rel,
                stored_entry(rel, size, created_at, local, webdav, remote_url, dims),
            ),
            rel,
            local,
        ) == (if local {
            ImageSource::Local
        } else {
            ImageSource::Remote
        }),
{
    broadcast use crate::value::group_fields;

    let e = stored_entry(rel, size, created_at, local, webdav, remote_url, dims);
    lemma_lookup_put(entries, rel, e, rel);
    reveal_strlit("webdav");
    reveal_strlit("remote_url");
    reveal_strlit("width");
    reveal_strlit("height");
    assert("webdav"@.len() == 6 && "webdav"@[0] == 'w');
    assert("remote_url"@.len() == 10);
    assert("width"@.len() == 5);
    assert("height"@.len() == 6 && "height"@[0] == 'h');
    assert(e.get("webdav"@) == Some(JsonView::Bool(webdav)));
    assert(noted_remote(put_entry(entries, rel, e), rel) == webdav);
}

} // verus!
