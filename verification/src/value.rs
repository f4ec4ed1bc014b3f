//! The model of JSON values: what a value holds, how its fields read, and how it is written.
use vstd::prelude::*;

use crate::assoc::{lemma_lookup_put, lemma_pulled, lookup, pulled, put_entry};
use crate::text::{decimal, int_text, trimmed};

verus! {

/// A JSON number.
pub struct Number {
    /// Its value, where it is an integer in the range of `i64`.
    pub int: Option<i64>,
    /// Its value cut to an integer and clamped to `i64`, for the numbers that are none.
    pub trunc: i64,
    /// The number as JSON text.
    pub text: String,
}

/// A JSON value.
pub enum Json {
    Null,
    Bool(bool),
    Num(Number),
    Str(String),
    Arr(Vec<Json>),
    Obj(Vec<(String, Json)>),
}

/// The model of a [`Number`].
pub struct NumberView {
    pub int: Option<i64>,
    pub trunc: i64,
    pub text: Seq<char>,
}

/// The model of a [`Json`] value.
pub enum JsonView {
    Null,
    Bool(bool),
    Num(NumberView),
    Str(Seq<char>),
    Arr(Seq<JsonView>),
    Obj(Seq<(Seq<char>, JsonView)>),
}

impl View for Number {
    type V = NumberView;

    open spec fn view(&self) -> NumberView {
        NumberView { int: self.int, trunc: self.trunc, text: self.text@ }
    }
}

/// The model of a value.
pub open spec fn json_view(j: Json) -> JsonView
    decreases j,
{
    match j {
        Json::Null => JsonView::Null,
        Json::Bool(b) => JsonView::Bool(b),
        Json::Num(n) => JsonView::Num(n@),
        Json::Str(s) => JsonView::Str(s@),
        Json::Arr(v) => JsonView::Arr(
            Seq::new(
                v@.len(),
                |i: int|
                    if 0 <= i < v@.len() {
                        json_view(v@[i])
                    } else {
                        JsonView::Null
                    },
            ),
        ),
        Json::Obj(o) => JsonView::Obj(
            Seq::new(
                o@.len(),
                |i: int|
                    if 0 <= i < o@.len() {
                        (o@[i].0@, json_view(o@[i].1))
                    } else {
                        (Seq::empty(), JsonView::Null)
                    },
            ),
        ),
    }
}

impl View for Json {
    type V = JsonView;

    open spec fn view(&self) -> JsonView {
        json_view(*self)
    }
}

/// The models of a list of values.
pub open spec fn list_view(v: Seq<Json>) -> Seq<JsonView> {
    v.map_values(|j: Json| j@)
}

/// The models of a list of fields.
pub open spec fn fields_view(o: Seq<(String, Json)>) -> Seq<(Seq<char>, JsonView)> {
    o.map_values(|f: (String, Json)| (f.0@, f.1@))
}

/// The model of a value that may be missing.
pub open spec fn opt_view(o: Option<&Json>) -> Option<JsonView> {
    match o {
        Some(j) => Some(j@),
        None => None,
    }
}

pub broadcast proof fn lemma_arr_view(j: Json)
    ensures
        j is Arr ==> #[trigger] json_view(j) == JsonView::Arr(list_view(j->Arr_0@)),
{
    if j is Arr {
        assert(json_view(j)->Arr_0 =~= list_view(j->Arr_0@));
    }
}

pub broadcast proof fn lemma_obj_view(j: Json)
    ensures
        j is Obj ==> #[trigger] json_view(j) == JsonView::Obj(fields_view(j->Obj_0@)),
{
    if j is Obj {
        assert(json_view(j)->Obj_0 =~= fields_view(j->Obj_0@));
    }
}

pub broadcast group group_json {
    lemma_arr_view,
    lemma_obj_view,
}

// ---------------------------------------------------------------------------
// fields of an object
// ---------------------------------------------------------------------------

impl JsonView {
    /// The field `k` of an object.
    pub open spec fn get(self, k: Seq<char>) -> Option<JsonView> {
        match self {
            JsonView::Obj(o) => lookup(o, k),
            _ => None,
        }
    }

    /// The object with the field `k` set.
    pub open spec fn put(self, k: Seq<char>, v: JsonView) -> JsonView {
        match self {
            JsonView::Obj(o) => JsonView::Obj(put_entry(o, k, v)),
            _ => self,
        }
    }

    /// The object without the field `k`, whose place the last field takes.
    pub open spec fn without(self, k: Seq<char>) -> JsonView {
        match self {
            JsonView::Obj(o) => JsonView::Obj(pulled(o, k)),
            _ => self,
        }
    }

    /// The text of a string.
    pub open spec fn as_text(self) -> Option<Seq<char>> {
        match self {
            JsonView::Str(s) => Some(s),
            _ => None,
        }
    }

    /// The value of an integer.
    pub open spec fn as_int_value(self) -> Option<i64> {
        match self {
            JsonView::Num(n) => n.int,
            _ => None,
        }
    }

    /// The items of an array.
    pub open spec fn items(self) -> Option<Seq<JsonView>> {
        match self {
            JsonView::Arr(v) => Some(v),
            _ => None,
        }
    }

    /// The string in the field `k`, or the empty text.
    pub open spec fn str_at(self, k: Seq<char>) -> Seq<char> {
        match self.get(k) {
            Some(JsonView::Str(s)) => s,
            _ => Seq::empty(),
        }
    }

    /// The integer in the field `k`, or `default`.
    pub open spec fn int_at(self, k: Seq<char>, default: i64) -> i64 {
        match self.get(k) {
            Some(JsonView::Num(n)) => match n.int {
                Some(i) => i,
                None => default,
            },
            _ => default,
        }
    }

    /// The boolean in the field `k`, or `default`.
    pub open spec fn bool_at(self, k: Seq<char>, default: bool) -> bool {
        match self.get(k) {
            Some(JsonView::Bool(b)) => b,
            _ => default,
        }
    }

    /// The items of the array in the field `k`, or none.
    pub open spec fn items_at(self, k: Seq<char>) -> Seq<JsonView> {
        match self.get(k) {
            Some(JsonView::Arr(v)) => v,
            _ => Seq::empty(),
        }
    }

    /// The field `k`, or `null`.
    pub open spec fn at(self, k: Seq<char>) -> JsonView {
        match self.get(k) {
            Some(v) => v,
            None => JsonView::Null,
        }
    }
}

/// The object without fields.
pub open spec fn empty_object() -> JsonView {
    JsonView::Obj(Seq::empty())
}

/// The integer `n`.
pub open spec fn int_json(n: int) -> JsonView {
    JsonView::Num(NumberView { int: Some(n as i64), trunc: n as i64, text: int_text(n) })
}

/// The count `n`.
pub open spec fn count_json(n: nat) -> JsonView {
    let fits = n <= i64::MAX;
    JsonView::Num(
        NumberView {
            int: if fits {
                Some(n as i64)
            } else {
                None
            },
            trunc: if fits {
                n as i64
            } else {
                i64::MAX
            },
            text: decimal(n),
        },
    )
}

/// A string, or `null`.
pub open spec fn opt_str(s: Option<Seq<char>>) -> JsonView {
    match s {
        Some(t) => JsonView::Str(t),
        None => JsonView::Null,
    }
}

/// A list of strings.
pub open spec fn texts_json(v: Seq<Seq<char>>) -> JsonView {
    JsonView::Arr(v.map_values(|s: Seq<char>| JsonView::Str(s)))
}

/// What a field reads as after another was set.
pub broadcast proof fn lemma_get_put(j: JsonView, k: Seq<char>, v: JsonView, q: Seq<char>)
    requires
        j is Obj,
    ensures
        #[trigger] j.put(k, v).get(q) == (if q == k {
            Some(v)
        } else {
            j.get(q)
        }),
{
    lemma_lookup_put(j->Obj_0, k, v, q);
}

/// What a field reads as after another was taken out.
pub broadcast proof fn lemma_get_without(j: JsonView, k: Seq<char>, q: Seq<char>)
    requires
        j is Obj,
    ensures
        #[trigger] j.without(k).get(q) == (if q == k {
            None
        } else {
            j.get(q)
        }),
{
    lemma_pulled(j->Obj_0, k);
}

pub broadcast group group_fields {
    lemma_get_put,
    lemma_get_without,
}

// ---------------------------------------------------------------------------
// readings
// ---------------------------------------------------------------------------

/// The text that a value stands for: a string as it is, nothing for `null` or a missing
/// value, and the JSON text of anything else.
pub open spec fn plain_text(v: Option<JsonView>) -> Seq<char> {
    match v {
        None => Seq::empty(),
        Some(JsonView::Null) => Seq::empty(),
        Some(JsonView::Str(s)) => s,
        Some(other) => compact(other),
    }
}

/// [`plain_text`] without the white space at its ends.
pub open spec fn clean_text(v: Option<JsonView>) -> Seq<char> {
    trimmed(plain_text(v))
}

/// The text that a value stands for: a string without the white space at its ends, nothing for
/// `null`, and the JSON text of anything else.
pub open spec fn bare_text(v: JsonView) -> Seq<char> {
    match v {
        JsonView::Str(s) => trimmed(s),
        JsonView::Null => Seq::empty(),
        other => compact(other),
    }
}

/// `s`, or `default` where `s` is empty.
pub open spec fn or_else(s: Seq<char>, default: Seq<char>) -> Seq<char> {
    if s.len() == 0 {
        default
    } else {
        s
    }
}

// ---------------------------------------------------------------------------
// JSON text
// ---------------------------------------------------------------------------

/// The lower-case hexadecimal digit of `n`.
pub open spec fn hex_char(n: int) -> char {
    if n < 10 {
        ((48 + n) as u8) as char
    } else {
        ((87 + n) as u8) as char
    }
}

/// What `serde_json` holds of a value that is handed to it: the value itself, where its numbers are
/// written as `serde_json` writes them and no two fields have one name.
pub uninterp spec fn carried(v: JsonView) -> JsonView;

/// A value that `serde_json` holds, as JSON text without spaces.
pub uninterp spec fn value_text(v: JsonView) -> Seq<char>;

/// A value that `serde_json` holds, as JSON text with one item or field to a line.
pub uninterp spec fn value_lines(v: JsonView) -> Seq<char>;

/// A value as JSON text without spaces.
pub open spec fn compact(v: JsonView) -> Seq<char> {
    value_text(carried(v))
}

/// A value as JSON text with one item or field to a line.
pub open spec fn pretty(v: JsonView) -> Seq<char> {
    value_lines(carried(v))
}

} // verus!
