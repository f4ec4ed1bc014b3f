//! The tags of images.
use vstd::prelude::*;

use crate::accounts_api::{unique_tokens, unique_trimmed};
use crate::ai::string_item;
use crate::assoc::{lookup, names_of, pulled, put_entry};
use crate::json::field_names;
use crate::text::{has_text, push_new, same, views};
use crate::value::{fields_view, list_view, opt_view, texts_json, Json, JsonView};

verus! {

broadcast use crate::value::group_json;

/// The tags that a value lists.
pub open spec fn tags_of(v: Option<JsonView>) -> Seq<Seq<char>> {
    match v {
        Some(JsonView::Arr(items)) => items.filter_map(string_item()),
        _ => Seq::empty(),
    }
}

/// Reads the tags that a value lists.
pub fn value_to_tags(value: Option<&Json>) -> (r: Vec<String>)
    ensures
        views(r@) == tags_of(opt_view(value)),
{
    let mut out: Vec<String> = Vec::new();
    assert(views(out@) =~= Seq::empty());
    match value {
        Some(Json::Arr(items)) => {
            let ghost v = list_view(items@);
            let ghost f = string_item();
            let mut i: usize = 0;
            assert(v.take(0).filter_map(f) =~= Seq::empty());
            while i < items.len()
                invariant
                    i <= items@.len(),
                    v == list_view(items@),
                    f == string_item(),
                    views(out@) == v.take(i as int).filter_map(f),
                decreases items@.len() - i,
            {
                proof {
                    v.lemma_filter_map_take_succ(f, i as int);
                }
                let ghost done = views(out@);
                match &items[i] {
                    Json::Str(s) => {
                        out.push(s.clone());
                        assert(views(out@) =~= done + seq![s@]);
                    },
                    _ => {},
                }
                assert(views(out@) =~= v.take(i + 1).filter_map(f));
                i += 1;
            }
            assert(v.take(i as int) =~= v);
        },
        _ => {},
    }
    out
}

/// The tags other than one.
pub open spec fn other_than(tag: Seq<char>) -> spec_fn(Seq<char>) -> bool {
    |t: Seq<char>| t != tag
}

/// The entries after a tag was deleted from one image: it is forgotten where no tag is left.
pub open spec fn untagged_at(
    o: Seq<(Seq<char>, JsonView)>,
    rel: Seq<char>,
    tag: Seq<char>,
) -> Seq<(Seq<char>, JsonView)> {
    let tags = tags_of(lookup(o, rel));
    let rest = tags.filter(other_than(tag));
    if !tags.contains(tag) {
        o
    } else if rest.len() == 0 {
        pulled(o, rel)
    } else {
        put_entry(o, rel, texts_json(rest))
    }
}

/// The entries after a tag was deleted from some images, one after the other.
pub open spec fn untagged(
    o: Seq<(Seq<char>, JsonView)>,
    rels: Seq<Seq<char>>,
    tag: Seq<char>,
) -> Seq<(Seq<char>, JsonView)>
    decreases rels.len(),
{
    if rels.len() == 0 {
        o
    } else {
        untagged_at(untagged(o, rels.drop_last(), tag), rels.last(), tag)
    }
}

/// How many of some images have a tag when it is deleted from them.
pub open spec fn untag_count(
    o: Seq<(Seq<char>, JsonView)>,
    rels: Seq<Seq<char>>,
    tag: Seq<char>,
) -> nat
    decreases rels.len(),
{
    if rels.len() == 0 {
        0
    } else {
        let now = untagged(o, rels.drop_last(), tag);
        untag_count(o, rels.drop_last(), tag) + (if tags_of(lookup(now, rels.last())).contains(
            tag,
        ) {
            1nat
        } else {
            0
        })
    }
}

fn drop_text(v: &Vec<String>, s: &str) -> (r: Vec<String>)
    ensures
        views(r@) == views(v@).filter(other_than(s@)),
{
    let ghost all = views(v@);
    let ghost keep = other_than(s@);
    let mut out: Vec<String> = Vec::new();
    let mut k: usize = 0;
    proof {
        reveal(Seq::filter);
        assert(views(out@) =~= all.take(0).filter(keep));
    }
    while k < v.len()
        invariant
            k <= v@.len(),
            all == views(v@),
            keep == other_than(s@),
            views(out@) == all.take(k as int).filter(keep),
        decreases v@.len() - k,
    {
        let ghost had = views(out@);
        assert(all.take(k + 1).drop_last() =~= all.take(k as int));
        assert(all.take(k + 1).filter(keep) == if keep(all[k as int]) {
            had.push(all[k as int])
        } else {
            had
        }) by {
            reveal(Seq::filter);
        }
        if !same(v[k].as_str(), s) {
            out.push(v[k].clone());
            assert(views(out@) =~= had.push(all[k as int]));
        }
        k += 1;
    }
    assert(all.take(k as int) =~= all);
    out
}

/// The tags of all images, in the order in which they first stand.
pub open spec fn all_tags(o: Seq<(Seq<char>, JsonView)>) -> Seq<Seq<char>>
    decreases o.len(),
{
    if o.len() == 0 {
        Seq::empty()
    } else {
        with_new(all_tags(o.drop_last()), tags_of(Some(o.last().1)))
    }
}

/// A list with the texts of another that it does not hold.
pub open spec fn with_new(s: Seq<Seq<char>>, more: Seq<Seq<char>>) -> Seq<Seq<char>>
    decreases more.len(),
{
    if more.len() == 0 {
        s
    } else {
        let t = with_new(s, more.drop_last());
        if t.contains(more.last()) {
            t
        } else {
            t.push(more.last())
        }
    }
}

/// The tags of images, by the images' paths.
pub struct ImageTagsService {
    data: Vec<(String, Json)>,
}

impl ImageTagsService {
    /// The entries, in order.
    pub closed spec fn entries(self) -> Seq<(Seq<char>, JsonView)> {
        fields_view(self.data@)
    }

    /// The tags of an image.
    pub open spec fn tags(self, rel: Seq<char>) -> Seq<Seq<char>> {
        tags_of(crate::assoc::lookup(self.entries(), rel))
    }

    /// The tags that a document holds; none where it holds no object.
    pub fn from_value(value: Json) -> (r: ImageTagsService)
        ensures
            r.entries() == (match value@ {
                JsonView::Obj(o) => o,
                _ => Seq::empty(),
            }),
    {
        match value {
            Json::Obj(o) => ImageTagsService { data: o },
            _ => {
                let data: Vec<(String, Json)> = Vec::new();
                assert(fields_view(data@) =~= Seq::empty());
                ImageTagsService { data }
            },
        }
    }

    /// The tags as a document.
    pub fn to_value(&self) -> (r: Json)
        ensures
            r@ == JsonView::Obj(self.entries()),
    {
        let mut out: Vec<(String, Json)> = Vec::new();
        let mut i: usize = 0;
        while i < self.data.len()
            invariant
                i <= self.data@.len(),
                fields_view(out@) =~= self.entries().take(i as int),
            decreases self.data@.len() - i,
        {
            let ghost done = fields_view(out@);
            out.push((self.data[i].0.clone(), self.data[i].1.copy()));
            assert(fields_view(out@) =~= done.push(self.entries()[i as int]));
            i += 1;
        }
        assert(fields_view(out@) =~= self.entries());
        Json::Obj(out)
    }

    /// What is noted of an image, as it is stored.
    pub fn tags_value(&self, image_rel: &str) -> (r: Option<Json>)
        ensures
            match r {
                Some(v) => crate::assoc::lookup(self.entries(), image_rel@) == Some(v@),
                None => crate::assoc::lookup(self.entries(), image_rel@) is None,
            },
    {
        let i = crate::content_filter::field_position(&self.data, image_rel);
        proof {
            lemma_lookup_at(self.entries(), image_rel@, i as int);
        }
        if i < self.data.len() {
            assert(self.entries()[i as int].1 == self.data@[i as int].1@);
            Some(self.data[i].1.copy())
        } else {
            None
        }
    }

    /// The tags of an image.
    pub fn get_tags(&self, image_rel: &str) -> (r: Vec<String>)
        ensures
            views(r@) == self.tags(image_rel@),
    {
        let i = crate::content_filter::field_position(&self.data, image_rel);
        proof {
            lemma_lookup_at(self.entries(), image_rel@, i as int);
        }
        if i < self.data.len() {
            assert(self.entries()[i as int].1 == self.data@[i as int].1@);
            value_to_tags(Some(&self.data[i].1))
        } else {
            value_to_tags(None)
        }
    }

    /// Gives an image the tags that are not blank, each once and without the white space round
    /// it; an image left without tags is forgotten. Gives the tags back.
    pub fn set_tags(&mut self, image_rel: &str, tags: &Vec<String>) -> (r: Vec<String>)
        ensures
            views(r@) == unique_trimmed(views(tags@)),
            final(self).entries() == (if unique_trimmed(views(tags@)).len() == 0 {
                crate::assoc::pulled(old(self).entries(), image_rel@)
            } else {
                crate::assoc::put_entry(
                    old(self).entries(),
                    image_rel@,
                    texts_json(unique_trimmed(views(tags@))),
                )
            }),
            final(self).tags(image_rel@) == views(r@),
            forall|q: Seq<char>| q != image_rel@ ==> #[trigger] final(self).tags(q) == old(self).tags(q),
    {
        proof {
            let es = self.entries();
            let all = unique_trimmed(views(tags@));
            law_tags_read_back(es, image_rel@, all);
            crate::assoc::lemma_pulled(es, image_rel@);
            assert forall|q: Seq<char>| q != image_rel@ implies #[trigger] crate::assoc::lookup(
                crate::assoc::put_entry(es, image_rel@, texts_json(all)),
                q,
            ) == crate::assoc::lookup(es, q) by {
                crate::assoc::lemma_lookup_put(es, image_rel@, texts_json(all), q);
            }
            if all.len() == 0 {
                assert(all =~= Seq::<Seq<char>>::empty());
            }
        }
        let cleaned = unique_tokens(tags);
        assert(views(cleaned@).len() == cleaned@.len());
        if cleaned.len() == 0 {
            crate::json::remove_field(&mut self.data, image_rel);
        } else {
            crate::json::set_field(&mut self.data, image_rel, Json::from_texts(&cleaned));
        }
        cleaned
    }

    /// Forgets the tags of an image, and tells whether it had an entry.
    pub fn remove_tags(&mut self, image_rel: &str) -> (r: bool)
        ensures
            final(self).entries() == crate::assoc::pulled(old(self).entries(), image_rel@),
            r == (crate::assoc::lookup(old(self).entries(), image_rel@) is Some),
            final(self).tags(image_rel@).len() == 0,
            forall|q: Seq<char>| q != image_rel@ ==> #[trigger] final(self).tags(q) == old(self).tags(q),
    {
        proof {
            crate::assoc::lemma_pulled(self.entries(), image_rel@);
        }
        let i = crate::content_filter::field_position(&self.data, image_rel);
        proof {
            lemma_lookup_at(self.entries(), image_rel@, i as int);
        }
        let there = i < self.data.len();
        crate::json::remove_field(&mut self.data, image_rel);
        there
    }

    /// Deletes a tag from every image, forgets the images left without tags, and tells how many
    /// images had it.
    pub fn delete_tag(&mut self, tag: &str) -> (r: usize)
        ensures
            final(self).entries() == untagged(
                old(self).entries(),
                names_of(old(self).entries()),
                tag@,
            ),
            r == untag_count(old(self).entries(), names_of(old(self).entries()), tag@),
    {
        let ghost es = self.entries();
        let rels = field_names(&self.data);
        let ghost ns = names_of(es);
        assert(views(rels@).len() == rels@.len());
        let mut count: usize = 0;
        let mut i: usize = 0;
        assert(ns.take(0) =~= Seq::empty());
        while i < rels.len()
            invariant
                count <= i <= rels@.len(),
                ns == views(rels@),
                self.entries() == untagged(es, ns.take(i as int), tag@),
                count == untag_count(es, ns.take(i as int), tag@),
            decreases rels@.len() - i,
        {
            assert(ns.take(i + 1).drop_last() =~= ns.take(i as int));
            assert(ns[i as int] == rels@[i as int]@);
            let rel = rels[i].as_str();
            let current = self.get_tags(rel);
            if has_text(&current, tag) {
                let rest = drop_text(&current, tag);
                assert(views(rest@).len() == rest@.len());
                if rest.len() == 0 {
                    crate::json::remove_field(&mut self.data, rel);
                } else {
                    crate::json::set_field(&mut self.data, rel, Json::from_texts(&rest));
                }
                count += 1;
            }
            i += 1;
        }
        assert(ns.take(i as int) =~= ns);
        count
    }

    /// The tags of all images, in the order in which they first stand.
    pub fn get_all_tags(&self) -> (r: Vec<String>)
        ensures
            views(r@) == all_tags(self.entries()),
    {
        let ghost es = self.entries();
        let mut out: Vec<String> = Vec::new();
        let mut i: usize = 0;
        assert(views(out@) =~= Seq::empty());
        while i < self.data.len()
            invariant
                i <= self.data@.len(),
                es == self.entries(),
                views(out@) == all_tags(es.take(i as int)),
            decreases self.data@.len() - i,
        {
            assert(es.take(i + 1).drop_last() =~= es.take(i as int));
            let ghost s = views(out@);
            let tags = value_to_tags(Some(&self.data[i].1));
            let ghost tv = views(tags@);
            assert(es[i as int].1 == self.data@[i as int].1@);
            let mut k: usize = 0;
            while k < tags.len()
                invariant
                    k <= tags@.len(),
                    tv == views(tags@),
                    views(out@) == with_new(s, tv.take(k as int)),
                decreases tags@.len() - k,
            {
                assert(tv.take(k + 1).drop_last() =~= tv.take(k as int));
                push_new(&mut out, tags[k].as_str());
                k += 1;
            }
            assert(tv.take(k as int) =~= tv);
            i += 1;
        }
        assert(es.take(i as int) =~= es);
        out
    }
}

pub proof fn lemma_lookup_at(o: Seq<(Seq<char>, JsonView)>, k: Seq<char>, i: int)
    requires
        0 <= i <= o.len(),
        forall|j: int| 0 <= j < i ==> (#[trigger] o[j]).0 != k,
        i < o.len() ==> o[i].0 == k,
    ensures
        crate::assoc::lookup(o, k) == (if i < o.len() {
            Some(o[i].1)
        } else {
            None
        }),
    decreases o.len(),
{
    if o.len() > 0 && i > 0 {
        let rest = o.drop_first();
        assert forall|j: int| 0 <= j < i - 1 implies (#[trigger] rest[j]).0 != k by {
            assert(rest[j] == o[j + 1]);
        }
        lemma_lookup_at(rest, k, i - 1);
    }
}

/// The tags that an image was given are the tags that it has.
pub proof fn law_tags_read_back(
    entries: Seq<(Seq<char>, JsonView)>,
    rel: Seq<char>,
    tags: Seq<Seq<char>>,
)
    ensures
        tags_of(
            crate::assoc::lookup(crate::assoc::put_entry(entries, rel, texts_json(tags)), rel),
        ) == tags,
        tags_of(crate::assoc::lookup(crate::assoc::pulled(entries, rel), rel)) == Seq::<
            Seq<char>,
        >::empty(),
{
    crate::assoc::lemma_lookup_put(entries, rel, texts_json(tags), rel);
    crate::assoc::lemma_pulled(entries, rel);
    lemma_texts_tags(tags);
}

proof fn lemma_texts_tags(tags: Seq<Seq<char>>)
    ensures
        tags_of(Some(texts_json(tags))) == tags,
    decreases tags.len(),
{
    let items = texts_json(tags)->Arr_0;
    if tags.len() > 0 {
        lemma_texts_tags(tags.drop_last());
        assert(items.drop_last() =~= texts_json(tags.drop_last())->Arr_0);
        assert(items.last() == JsonView::Str(tags.last()));
        assert(items.filter_map(string_item()) =~= tags);
    } else {
        assert(items.filter_map(string_item()) =~= tags);
    }
}

/// What the entry of an image reads as after a tag was deleted from it.
pub open spec fn cleaned_of(v: Option<JsonView>, tag: Seq<char>) -> Option<JsonView> {
    let tags = tags_of(v);
    let rest = tags.filter(other_than(tag));
    if !tags.contains(tag) {
        v
    } else if rest.len() == 0 {
        None
    } else {
        Some(texts_json(rest))
    }
}

proof fn lemma_cleaned(v: Option<JsonView>, tag: Seq<char>)
    ensures
        tags_of(cleaned_of(v, tag)) == tags_of(v).filter(other_than(tag)),
        !tags_of(cleaned_of(v, tag)).contains(tag),
{
    broadcast use vstd::seq_lib::group_filter_ensures;

    let tags = tags_of(v);
    let keep = other_than(tag);
    let rest = tags.filter(keep);
    assert forall|k: int| 0 <= k < rest.len() implies rest[k] != tag by {
        assert(keep(rest[k]));
    }
    if tags.contains(tag) {
        lemma_texts_tags(rest);
        if rest.len() == 0 {
            assert(tags_of(None) =~= rest);
        }
    } else {
        lemma_filter_keeps(tags, tag);
    }
}

proof fn lemma_filter_keeps(tags: Seq<Seq<char>>, tag: Seq<char>)
    requires
        !tags.contains(tag),
    ensures
        tags.filter(other_than(tag)) == tags,
    decreases tags.len(),
{
    reveal(Seq::filter);
    if tags.len() > 0 {
        let init = tags.drop_last();
        assert(!init.contains(tag)) by {
            if init.contains(tag) {
                let k = init.index_of(tag);
                assert(tags[k] == tag);
            }
        }
        lemma_filter_keeps(init, tag);
        assert(tags[tags.len() - 1] == tags.last());
        assert(init.push(tags.last()) =~= tags);
    }
}

proof fn lemma_untagged(
    o: Seq<(Seq<char>, JsonView)>,
    rels: Seq<Seq<char>>,
    tag: Seq<char>,
    q: Seq<char>,
)
    ensures
        lookup(untagged(o, rels, tag), q) == (if rels.contains(q) {
            cleaned_of(lookup(o, q), tag)
        } else {
            lookup(o, q)
        }),
    decreases rels.len(),
{
    if rels.len() > 0 {
        let init = rels.drop_last();
        let rel = rels.last();
        let b = untagged(o, init, tag);
        lemma_untagged(o, init, tag, q);
        lemma_untagged(o, init, tag, rel);
        lemma_cleaned(lookup(o, rel), tag);
        crate::assoc::lemma_pulled(b, rel);
        let rest = tags_of(lookup(b, rel)).filter(other_than(tag));
        crate::assoc::lemma_lookup_put(b, rel, texts_json(rest), q);
        assert(rels.contains(rel)) by {
            assert(rels[rels.len() - 1] == rel);
        }
        if init.contains(q) {
            let k = init.index_of(q);
            assert(rels[k] == q);
        } else if rels.contains(q) {
            let k = rels.index_of(q);
            assert(k == rels.len() - 1) by {
                if k < rels.len() - 1 {
                    assert(init[k] == q);
                }
            }
        }
    }
}

/// How many images lose a tag is how many had it.
pub proof fn law_untag_count(
    entries: Seq<(Seq<char>, JsonView)>,
    rels: Seq<Seq<char>>,
    tag: Seq<char>,
)
    requires
        rels.no_duplicates(),
    ensures
        untag_count(entries, rels, tag) == rels.filter(
            |rel: Seq<char>| tags_of(lookup(entries, rel)).contains(tag),
        ).len(),
    decreases rels.len(),
{
    reveal(Seq::filter);
    if rels.len() > 0 {
        let init = rels.drop_last();
        law_untag_count(entries, init, tag);
        lemma_untagged(entries, init, tag, rels.last());
        assert(!init.contains(rels.last())) by {
            if init.contains(rels.last()) {
                let k = init.index_of(rels.last());
                assert(rels[k] == rels[rels.len() - 1]);
            }
        }
    }
}

/// A tag that was deleted is on no image, and every image keeps its other tags.
pub proof fn law_deleted_tag_gone(
    entries: Seq<(Seq<char>, JsonView)>,
    tag: Seq<char>,
    rel: Seq<char>,
)
    ensures
        ({
            let left = tags_of(lookup(untagged(entries, names_of(entries), tag), rel));
            &&& !left.contains(tag)
            &&& left == tags_of(lookup(entries, rel)).filter(other_than(tag))
        }),
{
    let ns = names_of(entries);
    lemma_untagged(entries, ns, tag, rel);
    lemma_cleaned(lookup(entries, rel), tag);
    if !ns.contains(rel) {
        crate::assoc::lemma_lookup_found(entries, rel);
        if lookup(entries, rel) is Some {
            let i = choose|i: int|
                0 <= i < entries.len() && #[trigger] entries[i] == (rel, lookup(entries, rel)->0);
            assert(ns[i] == rel);
        }
        assert(tags_of(None) =~= Seq::<Seq<char>>::empty());
        lemma_filter_keeps(Seq::empty(), tag);
    }
}

} // verus!
