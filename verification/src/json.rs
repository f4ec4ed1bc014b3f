//! JSON values with their fields in order, and the readings of them that the services share.
use vstd::prelude::*;
use vstd::string::StringExecFns;
use vstd::utf8::encode_utf8;

use crate::assoc::{
    drop_entry, lemma_place, lemma_pulled, lemma_put_at, lookup, named_otherwise, names_of, place, pulled,
    put_entry, stands_once,
};
use crate::text::{decimal_text, same, signed_text, trim, views};
use crate::value::{
    bare_text, carried, clean_text, compact, count_json, empty_object, fields_view, int_json,
    list_view, opt_view, or_else, plain_text, pretty, texts_json, value_lines, value_text, Json,
    JsonView, Number,
};

verus! {

broadcast use crate::value::group_json;

impl Json {
    /// The object without fields.
    pub fn object() -> (r: Json)
        ensures
            r@ == empty_object(),
    {
        let o: Vec<(String, Json)> = Vec::new();
        assert(fields_view(o@) =~= Seq::empty());
        Json::Obj(o)
    }

    /// The integer `n`.
    pub fn from_int(n: i64) -> (r: Json)
        ensures
            r@ == int_json(n as int),
    {
        Json::Num(Number { int: Some(n), trunc: n, text: signed_text(n) })
    }

    /// The count `n`.
    pub fn from_count(n: usize) -> (r: Json)
        ensures
            r@ == count_json(n as nat),
    {
        count_value(n as u64)
    }

    /// The string `s`.
    pub fn from_text(s: &str) -> (r: Json)
        ensures
            r@ == JsonView::Str(s@),
    {
        Json::Str(s.to_owned())
    }

    /// The list of the strings `v`.
    pub fn from_texts(v: &Vec<String>) -> (r: Json)
        ensures
            r@ == texts_json(views(v@)),
    {
        let mut out: Vec<Json> = Vec::new();
        let mut i: usize = 0;
        while i < v.len()
            invariant
                i <= v@.len(),
                out@.len() == i,
                forall|k: int| 0 <= k < i ==> (#[trigger] out@[k])@ == JsonView::Str(v@[k]@),
            decreases v@.len() - i,
        {
            out.push(Json::Str(v[i].clone()));
            i += 1;
        }
        assert(list_view(out@) =~= texts_json(views(v@))->Arr_0);
        Json::Arr(out)
    }

    /// A copy of the value.
    pub fn copy(&self) -> (r: Json)
        ensures
            r@ == self@,
        decreases self,
    {
        match self {
            Json::Null => Json::Null,
            Json::Bool(b) => Json::Bool(*b),
            Json::Num(n) => Json::Num(
                Number { int: n.int, trunc: n.trunc, text: n.text.clone() },
            ),
            Json::Str(s) => Json::Str(s.clone()),
            Json::Arr(v) => {
                let mut out: Vec<Json> = Vec::new();
                let mut i: usize = 0;
                while i < v.len()
                    invariant
                        i <= v@.len(),
                        *self is Arr && self->Arr_0 == *v,
                        out@.len() == i,
                        forall|k: int| 0 <= k < i ==> (#[trigger] out@[k])@ == v@[k]@,
                    decreases v@.len() - i,
                {
                    out.push(v[i].copy());
                    i += 1;
                }
                assert(list_view(out@) =~= list_view(v@));
                Json::Arr(out)
            },
            Json::Obj(o) => {
                let mut out: Vec<(String, Json)> = Vec::new();
                let mut i: usize = 0;
                while i < o.len()
                    invariant
                        i <= o@.len(),
                        *self is Obj && self->Obj_0 == *o,
                        out@.len() == i,
                        forall|k: int|
                            0 <= k < i ==> (#[trigger] out@[k]).0@ == o@[k].0@ && out@[k].1@
                                == o@[k].1@,
                    decreases o@.len() - i,
                {
                    out.push((o[i].0.clone(), o[i].1.copy()));
                    i += 1;
                }
                assert(fields_view(out@) =~= fields_view(o@));
                Json::Obj(out)
            },
        }
    }

    /// The field `k` of an object.
    pub fn get(&self, k: &str) -> (r: Option<&Json>)
        ensures
            opt_view(r) == self@.get(k@),
    {
        match self {
            Json::Obj(o) => {
                let mut i: usize = 0;
                assert(fields_view(o@).skip(0) =~= fields_view(o@));
                while i < o.len()
                    invariant
                        i <= o@.len(),
                        *self is Obj && self->Obj_0 == *o,
                        self@.get(k@) == lookup(fields_view(o@).skip(i as int), k@),
                    decreases o@.len() - i,
                {
                    let ghost rest = fields_view(o@).skip(i as int);
                    assert(rest[0] == (o@[i as int].0@, o@[i as int].1@));
                    assert(rest.drop_first() =~= fields_view(o@).skip(i + 1));
                    if same(o[i].0.as_str(), k) {
                        return Some(&o[i].1);
                    }
                    i += 1;
                }
                None
            },
            _ => None,
        }
    }

    /// Sets the field `k` of an object to `v`.
    pub fn set(&mut self, k: &str, v: Json)
        ensures
            final(self)@ == old(self)@.put(k@, v@),
    {
        match self {
            Json::Obj(o) => {
                set_field(o, k, v);
            },
            _ => {},
        }
    }

    /// Takes the field `k` out of an object.
    pub fn remove(&mut self, k: &str)
        ensures
            final(self)@ == old(self)@.without(k@),
    {
        match self {
            Json::Obj(o) => {
                remove_field(o, k);
            },
            _ => {},
        }
    }

    /// The text of a string.
    pub fn as_str(&self) -> (r: Option<&str>)
        ensures
            match r {
                Some(s) => self@.as_text() == Some(s@),
                None => self@.as_text() is None,
            },
    {
        match self {
            Json::Str(s) => Some(s.as_str()),
            _ => None,
        }
    }

    /// The value of an integer.
    pub fn as_int(&self) -> (r: Option<i64>)
        ensures
            r == self@.as_int_value(),
    {
        match self {
            Json::Num(n) => n.int,
            _ => None,
        }
    }

    /// Whether the value is `null`.
    pub fn is_null(&self) -> (r: bool)
        ensures
            r == (self@ is Null),
    {
        matches!(self, Json::Null)
    }

    /// Whether the value is an object.
    pub fn is_object(&self) -> (r: bool)
        ensures
            r == (self@ is Obj),
    {
        matches!(self, Json::Obj(_))
    }

    /// The string in the field `k`, or the empty text.
    pub fn str_at(&self, k: &str) -> (r: String)
        ensures
            r@ == self@.str_at(k@),
    {
        match self.get(k) {
            Some(Json::Str(s)) => s.clone(),
            _ => String::new(),
        }
    }

    /// The integer in the field `k`, or `default`.
    pub fn int_at(&self, k: &str, default: i64) -> (r: i64)
        ensures
            r == self@.int_at(k@, default),
    {
        match self.get(k) {
            Some(Json::Num(n)) => match n.int {
                Some(i) => i,
                None => default,
            },
            _ => default,
        }
    }

    /// The boolean in the field `k`, or `default`.
    pub fn bool_at(&self, k: &str, default: bool) -> (r: bool)
        ensures
            r == self@.bool_at(k@, default),
    {
        match self.get(k) {
            Some(Json::Bool(b)) => *b,
            _ => default,
        }
    }

    /// A copy of the field `k`, or `null`.
    pub fn at(&self, k: &str) -> (r: Json)
        ensures
            r@ == self@.at(k@),
    {
        match self.get(k) {
            Some(v) => v.copy(),
            None => Json::Null,
        }
    }

    /// Copies of the items of the array in the field `k`, or none.
    pub fn items_at(&self, k: &str) -> (r: Vec<Json>)
        ensures
            list_view(r@) == self@.items_at(k@),
    {
        match self.get(k) {
            Some(Json::Arr(v)) => copy_list(v),
            _ => {
                let r: Vec<Json> = Vec::new();
                assert(list_view(r@) =~= Seq::empty());
                r
            },
        }
    }
}

/// The count `n`.
pub fn count_value(n: u64) -> (r: Json)
    ensures
        r@ == count_json(n as nat),
{
    let fits = n <= 0x7fff_ffff_ffff_ffff;
    Json::Num(
        Number {
            int: if fits {
                Some(n as i64)
            } else {
                None
            },
            trunc: if fits {
                n as i64
            } else {
                0x7fff_ffff_ffff_ffff
            },
            text: decimal_text(n as u128),
        },
    )
}

/// A copy of a list of values.
pub fn copy_list(v: &Vec<Json>) -> (r: Vec<Json>)
    ensures
        list_view(r@) == list_view(v@),
{
    let mut out: Vec<Json> = Vec::new();
    let mut i: usize = 0;
    while i < v.len()
        invariant
            i <= v@.len(),
            out@.len() == i,
            forall|k: int| 0 <= k < i ==> (#[trigger] out@[k])@ == v@[k]@,
        decreases v@.len() - i,
    {
        out.push(v[i].copy());
        i += 1;
    }
    assert(list_view(out@) =~= list_view(v@));
    out
}

/// Sets the field `k` among `o`.
pub fn set_field(o: &mut Vec<(String, Json)>, k: &str, v: Json)
    ensures
        fields_view(final(o)@) == put_entry(fields_view(old(o)@), k@, v@),
{
    let ghost start = fields_view(o@);
    let mut i: usize = 0;
    while i < o.len() && !same(o[i].0.as_str(), k)
        invariant
            i <= o@.len(),
            start == fields_view(o@),
            forall|j: int| 0 <= j < i ==> (#[trigger] start[j]).0 != k@,
        ensures
            i <= o@.len(),
            start == fields_view(o@),
            forall|j: int| 0 <= j < i ==> (#[trigger] start[j]).0 != k@,
            i < o@.len() ==> start[i as int].0 == k@,
        decreases o@.len() - i,
    {
        i += 1;
    }
    proof {
        lemma_put_at(start, k@, v@, i as int);
    }
    let ghost vv = v@;
    if i < o.len() {
        o[i] = (k.to_owned(), v);
        assert(fields_view(o@) =~= start.update(i as int, (k@, vv)));
    } else {
        o.push((k.to_owned(), v));
        assert(fields_view(o@) =~= start.push((k@, vv)));
    }
}

/// Takes the field named `k` out of `o`: the last field takes its place.
pub fn remove_field(o: &mut Vec<(String, Json)>, k: &str)
    ensures
        fields_view(final(o)@) == pulled(fields_view(old(o)@), k@),
{
    let ghost start = fields_view(o@);
    let at = field_place(o, k);
    proof {
        lemma_pulled(start, k@);
        lemma_place(start, k@);
    }
    if at >= o.len() {
        return;
    }
    let last = o.len() - 1;
    if is_once(o, k) && is_once(o, o[last].0.as_str()) {
        o.swap_remove(at);
        assert(fields_view(o@) =~= start.update(at as int, start.last()).drop_last());
    } else {
        take_fields(o, k);
    }
}

/// The names of fields, in order.
pub fn field_names(o: &Vec<(String, Json)>) -> (r: Vec<String>)
    ensures
        views(r@) == names_of(fields_view(o@)),
{
    let ghost want = names_of(fields_view(o@));
    let mut out: Vec<String> = Vec::new();
    let mut i: usize = 0;
    while i < o.len()
        invariant
            i <= o@.len(),
            want == names_of(fields_view(o@)),
            views(out@) =~= want.take(i as int),
        decreases o@.len() - i,
    {
        let ghost had = views(out@);
        out.push(o[i].0.clone());
        assert(views(out@) =~= had.push(want[i as int]));
        i += 1;
    }
    assert(views(out@) =~= want);
    out
}

fn field_place(o: &Vec<(String, Json)>, k: &str) -> (r: usize)
    ensures
        r == place(fields_view(o@), k@),
{
    let ghost v = fields_view(o@);
    let mut i: usize = 0;
    assert(v.skip(0) =~= v);
    while i < o.len() && !same(o[i].0.as_str(), k)
        invariant
            i <= o@.len(),
            v == fields_view(o@),
            place(v, k@) == i + place(v.skip(i as int), k@),
        ensures
            i <= o@.len(),
            place(v, k@) == i + place(v.skip(i as int), k@),
            i < o@.len() ==> v[i as int].0 == k@,
        decreases o@.len() - i,
    {
        assert(v.skip(i as int).drop_first() =~= v.skip(i + 1));
        i += 1;
    }
    i
}

fn is_once(o: &Vec<(String, Json)>, k: &str) -> (r: bool)
    ensures
        r == stands_once(fields_view(o@), k@),
{
    let ghost v = fields_view(o@);
    let mut seen: Option<usize> = None;
    let mut i: usize = 0;
    while i < o.len()
        invariant
            i <= o@.len(),
            v == fields_view(o@),
            match seen {
                None => forall|a: int| 0 <= a < i ==> (#[trigger] v[a]).0 != k@,
                Some(s) => s < i && v[s as int].0 == k@ && forall|a: int|
                    0 <= a < i && a != s ==> (#[trigger] v[a]).0 != k@,
            },
        decreases o@.len() - i,
    {
        if same(o[i].0.as_str(), k) {
            assert(v[i as int].0 == k@);
            match seen {
                Some(s) => {
                    assert(v[s as int].0 == k@);
                    return false;
                },
                None => {
                    seen = Some(i);
                },
            }
        }
        i += 1;
    }
    true
}

/// Takes the fields named `k` out of `o` and leaves the others in order.
fn take_fields(o: &mut Vec<(String, Json)>, k: &str)
    ensures
        fields_view(final(o)@) == drop_entry(fields_view(old(o)@), k@),
{
    let ghost start = fields_view(o@);
    let ghost keep = named_otherwise::<JsonView>(k@);
    let mut i: usize = 0;
    let mut kept: Vec<(String, Json)> = Vec::new();
    proof {
        reveal(Seq::filter);
        assert(fields_view(kept@) =~= start.take(0).filter(keep));
    }
    while i < o.len()
        invariant
            i <= o@.len(),
            start == fields_view(o@),
            keep == named_otherwise::<JsonView>(k@),
            fields_view(kept@) == start.take(i as int).filter(keep),
        decreases o@.len() - i,
    {
        let ghost t = start.take(i + 1);
        assert(t.drop_last() =~= start.take(i as int));
        let ghost had = fields_view(kept@);
        assert(t.filter(keep) == if keep(start[i as int]) {
            had.push(start[i as int])
        } else {
            had
        }) by {
            reveal(Seq::filter);
        }
        if !same(o[i].0.as_str(), k) {
            kept.push((o[i].0.clone(), o[i].1.copy()));
            assert(fields_view(kept@) =~= had.push(start[i as int]));
        }
        i += 1;
    }
    assert(start.take(i as int) =~= start);
    *o = kept;
}

// ---------------------------------------------------------------------------
// readings
// ---------------------------------------------------------------------------

/// Reads [`plain_text`].
pub fn text_from(v: Option<&Json>) -> (r: String)
    ensures
        r@ == plain_text(opt_view(v)),
{
    match v {
        None => String::new(),
        Some(Json::Null) => String::new(),
        Some(Json::Str(s)) => s.clone(),
        Some(other) => other.to_text(),
    }
}

/// Reads [`clean_text`].
pub fn clean_from(v: Option<&Json>) -> (r: String)
    ensures
        r@ == clean_text(opt_view(v)),
{
    trim(text_from(v).as_str())
}

/// Reads [`bare_text`].
pub fn bare_from(v: &Json) -> (r: String)
    ensures
        r@ == bare_text(v@),
{
    match v {
        Json::Str(s) => trim(s.as_str()),
        Json::Null => String::new(),
        other => other.to_text(),
    }
}

/// `s`, or `default` where `s` is empty.
pub fn non_empty_or(s: String, default: &str) -> (r: String)
    ensures
        r@ == or_else(s@, default@),
{
    if s.as_str().is_empty() {
        default.to_owned()
    } else {
        s
    }
}

// ---------------------------------------------------------------------------
// JSON text
// ---------------------------------------------------------------------------

/// A value as `serde_json` holds it.
#[verifier::external_type_specification]
#[verifier::external_body]
pub struct ExValue(serde_json::Value);

/// What a value of `serde_json` holds.
pub uninterp spec fn value_view(v: serde_json::Value) -> JsonView;

/// The value that `serde_json` reads from a JSON document, or none where it refuses it.
pub uninterp spec fn parsed(bytes: Seq<u8>) -> Option<JsonView>;

/// Makes a `serde_json::Value`, variant by variant: a number with `serde_json::from_str` of its
/// text, and the entries of an array or a map in their order. Claims that what it holds depends on
/// the value alone.
#[verifier::external_body]
fn to_value(v: &Json) -> (r: serde_json::Value)
    ensures
        value_view(r) == carried(v@),
{
    match v {
        Json::Null => serde_json::Value::Null,
        Json::Bool(b) => serde_json::Value::Bool(*b),
        Json::Num(n) => serde_json::from_str(&n.text).map_or(
            serde_json::Value::Null,
            serde_json::Value::Number,
        ),
        Json::Str(s) => serde_json::Value::String(s.clone()),
        Json::Arr(a) => serde_json::Value::Array(a.iter().map(to_value).collect()),
        Json::Obj(o) => serde_json::Value::Object(
            o.iter().map(|(k, x)| (k.clone(), to_value(x))).collect()),
    }
}

/// Calls `serde_json::to_string`, which does not fail on a `serde_json::Value`. Claims that the
/// text depends on what the value holds alone.
#[verifier::external_body]
fn write_value(v: &serde_json::Value) -> (r: String)
    ensures
        r@ == value_text(value_view(*v)),
{
    serde_json::to_string(v).unwrap_or_default()
}

/// Calls `serde_json::to_string_pretty`, which does not fail on a `serde_json::Value`. Claims that
/// the text depends on what the value holds alone.
#[verifier::external_body]
fn write_value_pretty(v: &serde_json::Value) -> (r: String)
    ensures
        r@ == value_lines(value_view(*v)),
{
    serde_json::to_string_pretty(v).unwrap_or_default()
}

impl Json {
    /// The value as JSON text without spaces.
    pub fn to_text(&self) -> (r: String)
        ensures
            r@ == compact(self@),
    {
        write_value(&to_value(self))
    }

    /// The value as JSON text with one item or field to a line.
    pub fn to_pretty(&self) -> (r: String)
        ensures
            r@ == pretty(self@),
    {
        write_value_pretty(&to_value(self))
    }
}

// ---------------------------------------------------------------------------
// parsing
// ---------------------------------------------------------------------------

/// Calls `serde_json::from_slice`. Claims that whether it succeeds, and what the value
/// holds, depends on the bytes alone.
#[verifier::external_body]
fn read_value(bytes: &[u8]) -> (r: Option<serde_json::Value>)
    ensures
        match r {
            Some(v) => parsed(bytes@) == Some(value_view(v)),
            None => parsed(bytes@) is None,
        },
{
    serde_json::from_slice(bytes).ok()
}

/// Whether every string in a value has fewer than `n` characters.
pub open spec fn strings_below(v: JsonView, n: nat) -> bool
    decreases v,
{
    match v {
        JsonView::Str(s) => s.len() < n,
        JsonView::Arr(items) => forall|i: int|
            0 <= i < items.len() ==> strings_below(#[trigger] items[i], n),
        JsonView::Obj(fields) => forall|i: int|
            0 <= i < fields.len() ==> strings_below((#[trigger] fields[i]).1, n),
        _ => true,
    }
}

/// Calls `serde_json::from_str`. Claims that it reads what the bytes of the text give, and that
/// every string in the value is shorter than the text that it stood in.
#[verifier::external_body]
fn read_text_value(text: &str) -> (r: Option<serde_json::Value>)
    ensures
        match r {
            Some(v) => parsed(encode_utf8(text@)) == Some(value_view(v)) && strings_below(
                value_view(v),
                text@.len(),
            ),
            None => parsed(encode_utf8(text@)) is None,
        },
{
    serde_json::from_str(text).ok()
}

/// Takes a `serde_json::Value` apart, variant by variant: `Number::as_i64`, the number cut to
/// an integer and its text, and the entries of an array or a map in their order.
#[verifier::external_body]
fn from_value(v: &serde_json::Value) -> (r: Json)
    ensures
        r@ == value_view(*v),
{
    match v {
        serde_json::Value::Null => Json::Null,
        serde_json::Value::Bool(b) => Json::Bool(*b),
        serde_json::Value::Number(n) => Json::Num(Number {
            int: n.as_i64(),
            trunc: n.as_f64().map_or(0, |x| x as i64),
            text: n.to_string(),
        }),
        serde_json::Value::String(s) => Json::Str(s.clone()),
        serde_json::Value::Array(a) => Json::Arr(a.iter().map(from_value).collect()),
        serde_json::Value::Object(m) => Json::Obj(
            m.iter().map(|(k, x)| (k.clone(), from_value(x))).collect()),
    }
}

/// A number, written as JSON, as a floating-point number; `null` for a text that is none.
pub uninterp spec fn float_of(text: Seq<char>) -> JsonView;

/// Calls `serde_json::from_str` for a number and `as_f64`, and makes a value of the result.
/// Claims that the value depends on the text alone.
#[verifier::external_body]
fn read_float(text: &str) -> (r: serde_json::Value)
    ensures
        value_view(r) == float_of(text@),
{
    let n = serde_json::from_str::<serde_json::Number>(text).ok().and_then(|n| n.as_f64());
    serde_json::Value::from(n)
}

/// Makes a floating-point number of a number that is written as JSON.
pub fn float_value(text: &str) -> (r: Json)
    ensures
        r@ == float_of(text@),
{
    from_value(&read_float(text))
}

/// Whether the first of two numbers, written as JSON, is below the second.
pub uninterp spec fn number_below(a: Seq<char>, b: Seq<char>) -> bool;

/// Calls `serde_json::from_str` for a number and `as_f64` on each text, and compares the results.
/// Claims that the outcome depends on the texts alone, and that no number is below itself.
#[verifier::external_body]
pub(crate) fn is_below(a: &str, b: &str) -> (r: bool)
    ensures
        r == number_below(a@, b@),
        a@ == b@ ==> !r,
{
    let a = serde_json::from_str::<serde_json::Number>(a).ok().and_then(|n| n.as_f64());
    let b = serde_json::from_str::<serde_json::Number>(b).ok().and_then(|n| n.as_f64());
    a < b
}

impl Json {
    /// Reads a JSON document, the strings of which are shorter than it is.
    pub fn parse_text(text: &str) -> (r: Option<Json>)
        ensures
            match r {
                Some(j) => parsed(encode_utf8(text@)) == Some(j@) && strings_below(
                    j@,
                    text@.len(),
                ),
                None => parsed(encode_utf8(text@)) is None,
            },
    {
        match read_text_value(text) {
            Some(v) => Some(from_value(&v)),
            None => None,
        }
    }

    /// Reads a JSON document.
    pub fn parse(bytes: &[u8]) -> (r: Option<Json>)
        ensures
            match r {
                Some(j) => parsed(bytes@) == Some(j@),
                None => parsed(bytes@) is None,
            },
    {
        match read_value(bytes) {
            Some(v) => Some(from_value(&v)),
            None => None,
        }
    }
}

} // verus!
