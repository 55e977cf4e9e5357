//! JSON values as the crate reads them.

use crate::text::same;
use vstd::prelude::*;

verus! {

/// A JSON value.  A number keeps its text and, when it is a non-negative
/// integer below two to the 64th, its value.  An object holds each name once.
#[derive(Debug, PartialEq, Eq)]
pub enum Json {
    Null,
    Bool(bool),
    Number(Option<u64>, String),
    Text(String),
    Array(Vec<Json>),
    Object(Vec<(String, Json)>),
}

/// What a [`Json`] stands for.
pub enum JsonView {
    Null,
    Bool(bool),
    Number(Option<u64>, Seq<char>),
    Text(Seq<char>),
    Array(Seq<JsonView>),
    Object(Seq<(Seq<char>, JsonView)>),
}

/// What a [`Json`] stands for.
pub open spec fn json_view(j: Json) -> JsonView
    decreases j,
{
    match j {
        Json::Null => JsonView::Null,
        Json::Bool(b) => JsonView::Bool(b),
        Json::Number(n, t) => JsonView::Number(n, t@),
        Json::Text(t) => JsonView::Text(t@),
        Json::Array(items) => JsonView::Array(
            Seq::new(
                items@.len(),
                |i: int|
                    if 0 <= i < items@.len() {
                        json_view(items@[i])
                    } else {
                        JsonView::Null
                    },
            ),
        ),
        Json::Object(fields) => JsonView::Object(
            Seq::new(
                fields@.len(),
                |i: int|
                    if 0 <= i < fields@.len() {
                        (fields@[i].0@, json_view(fields@[i].1))
                    } else {
                        (Seq::empty(), JsonView::Null)
                    },
            ),
        ),
    }
}

impl View for Json {
    type V = JsonView;

    open spec fn view(&self) -> JsonView {
        json_view(*self)
    }
}

/// The value of the first of `fields` named `key`.
pub open spec fn find_field(fields: Seq<(Seq<char>, JsonView)>, key: Seq<char>) -> Option<JsonView>
    decreases fields.len(),
{
    if fields.len() == 0 {
        None
    } else if fields[0].0 == key {
        Some(fields[0].1)
    } else {
        find_field(fields.drop_first(), key)
    }
}

impl JsonView {
    /// The field `key` of an object; nothing of any other value.
    pub open spec fn field(self, key: Seq<char>) -> Option<JsonView> {
        match self {
            JsonView::Object(fields) => find_field(fields, key),
            _ => None,
        }
    }

    /// The text of a string value.
    pub open spec fn text(self) -> Option<Seq<char>> {
        match self {
            JsonView::Text(t) => Some(t),
            _ => None,
        }
    }

    /// The text of the string field `key`.
    pub open spec fn field_text(self, key: Seq<char>) -> Option<Seq<char>> {
        match self.field(key) {
            Some(v) => v.text(),
            None => None,
        }
    }
}

/// The view of an optional text.
pub open spec fn text_opt(t: Option<String>) -> Option<Seq<char>> {
    match t {
        Some(s) => Some(s@),
        None => None,
    }
}

impl Json {
    /// The field `key` of an object.
    pub fn get(&self, key: &str) -> (r: Option<&Json>)
        ensures
            r is Some <==> self@.field(key@) is Some,
            r matches Some(v) ==> v@ == self@.field(key@)->0,
    {
        match self {
            Json::Object(fields) => {
                let ghost all = self@->Object_0;
                let mut i: usize = 0;
                assert(all.skip(0) == all);
                while i < fields.len()
                    invariant
                        i <= fields.len(),
                        all == self@->Object_0,
                        self@ is Object,
                        self matches Json::Object(f) && f == fields,
                        find_field(all, key@) == find_field(all.skip(i as int), key@),
                        all.len() == fields.len(),
                    decreases fields.len() - i,
                {
                    assert(all.skip(i as int)[0] == (fields@[i as int].0@, fields@[i as int].1@));
                    if same(&fields[i].0, key) {
                        return Some(&fields[i].1);
                    }
                    assert(all.skip(i as int).drop_first() == all.skip(i + 1));
                    i += 1;
                }
                None
            },
            _ => None,
        }
    }

    /// The text of a string value.
    pub fn as_text(&self) -> (r: Option<&String>)
        ensures
            r is Some <==> self@.text() is Some,
            r matches Some(t) ==> t@ == self@.text()->0,
    {
        match self {
            Json::Text(t) => Some(t),
            _ => None,
        }
    }

    /// The text of the string field `key`.
    pub fn get_text(&self, key: &str) -> (r: Option<&String>)
        ensures
            r is Some <==> self@.field_text(key@) is Some,
            r matches Some(t) ==> t@ == self@.field_text(key@)->0,
    {
        match self.get(key) {
            Some(v) => v.as_text(),
            None => None,
        }
    }

    /// A copy of the value.
    pub fn copy(&self) -> (r: Json)
        ensures
            r@ == self@,
        decreases self,
    {
        match self {
            Json::Null => Json::Null,
            Json::Bool(b) => Json::Bool(*b),
            Json::Number(n, t) => Json::Number(*n, t.clone()),
            Json::Text(t) => Json::Text(t.clone()),
            Json::Array(items) => {
                let mut out: Vec<Json> = Vec::new();
                let mut i: usize = 0;
                while i < items.len()
                    invariant
                        i <= items.len(),
                        self matches Json::Array(v) && v == items,
                        out@.len() == i,
                        forall|j: int| 0 <= j < i ==> (#[trigger] out@[j])@ == items@[j]@,
                    decreases items.len() - i,
                {
                    out.push(items[i].copy());
                    i += 1;
                }
                let r = Json::Array(out);
                assert(r@->Array_0 =~= self@->Array_0);
                r
            },
            Json::Object(fields) => {
                let mut out: Vec<(String, Json)> = Vec::new();
                let mut i: usize = 0;
                while i < fields.len()
                    invariant
                        i <= fields.len(),
                        self matches Json::Object(v) && v == fields,
                        out@.len() == i,
                        forall|j: int|
                            0 <= j < i ==> (#[trigger] out@[j]).0@ == fields@[j].0@ && out@[j].1@
                                == fields@[j].1@,
                    decreases fields.len() - i,
                {
                    out.push((fields[i].0.clone(), fields[i].1.copy()));
                    i += 1;
                }
                let r = Json::Object(out);
                assert(r@->Object_0 =~= self@->Object_0);
                r
            },
        }
    }
}

/// What `serde_json` reads in a text: the value it holds, or nothing when the
/// text is not one JSON value.  An object lists each of its names once, with
/// the value that comes last for that name.
pub uninterp spec fn json_of(text: Seq<char>) -> Option<JsonView>;

/// One arm for each variant of `serde_json::Value`, moving what it holds.
#[verifier::external_body]
fn convert(value: serde_json::Value) -> Json {
    match value {
        serde_json::Value::Null => Json::Null,
        serde_json::Value::Bool(b) => Json::Bool(b),
        serde_json::Value::Number(n) => Json::Number(n.as_u64(), n.to_string()),
        serde_json::Value::String(s) => Json::Text(s),
        serde_json::Value::Array(items) => Json::Array(items.into_iter().map(convert).collect()),
        serde_json::Value::Object(fields) => {
            Json::Object(fields.into_iter().map(|f| (f.0, convert(f.1))).collect())
        },
    }
}

/// `serde_json::from_str` into a `serde_json::Value`: what it reads is a
/// function of the text alone.
#[verifier::external_body]
pub(crate) fn parse_json(text: &str) -> (r: Option<Json>)
    ensures
        r is Some <==> json_of(text@) is Some,
        r matches Some(v) ==> v@ == json_of(text@)->0,
{
    serde_json::from_str::<serde_json::Value>(text).ok().map(convert)
}

/// Whether `serde_json` can read past a text as one JSON value, with nothing of
/// it kept.
pub uninterp spec fn json_skips(text: Seq<char>) -> bool;

/// `serde_json::from_str` into `serde::de::IgnoredAny`: whether it succeeds is a
/// function of the text alone.  It asks for the form of a JSON value only: a
/// number out of range, a lone surrogate escape and any depth pass.
#[verifier::external_body]
pub(crate) fn skips_json(text: &str) -> (r: bool)
    ensures
        r == json_skips(text@),
{
    serde_json::from_str::<serde::de::IgnoredAny>(text).is_ok()
}

/// The compact text that `serde_json` writes for a value.
pub uninterp spec fn json_text(value: JsonView) -> Seq<char>;

/// One arm for each variant of [`Json`], moving what it holds.  A number is read
/// back from its text.
#[verifier::external_body]
fn restore(value: &Json) -> serde_json::Value {
    match value {
        Json::Null => serde_json::Value::Null,
        Json::Bool(b) => serde_json::Value::Bool(*b),
        Json::Number(_, text) => serde_json::from_str(text).unwrap_or(serde_json::Value::Null),
        Json::Text(text) => serde_json::Value::String(text.clone()),
        Json::Array(items) => serde_json::Value::Array(items.iter().map(restore).collect()),
        Json::Object(fields) => serde_json::Value::Object(
            fields.iter().map(|f| (f.0.clone(), restore(&f.1))).collect(),
        ),
    }
}

/// `serde_json::Value`'s `to_string`: the text is a function of the value alone.
#[verifier::external_body]
pub(crate) fn write_json(value: &Json) -> (r: String)
    ensures
        r@ == json_text(value@),
{
    restore(value).to_string()
}

/// `serde_json::Value`, opaque: only [`convert`] and [`restore`] look inside.
#[verifier::external_type_specification]
#[verifier::external_body]
pub struct ExValue(serde_json::Value);

} // verus!
