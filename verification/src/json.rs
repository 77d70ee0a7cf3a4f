//! The answers of the providers: JSON values, held as plain data.

use crate::text::{parse_u64, parsed_u64, same_text, views};
use vstd::prelude::*;
use vstd::string::*;

verus! {

/// A JSON value. A number is held as the text that writes it; the fields
/// of an object are held in the order in which the parser hands them out.
#[derive(Debug, PartialEq, Eq)]
pub enum Json {
    Null,
    Bool(bool),
    Number(String),
    String(String),
    Array(Vec<Json>),
    Object(Vec<(String, Json)>),
}

/// A [`Json`] as a mathematical value.
pub enum JsonView {
    Null,
    Bool(bool),
    Number(Seq<char>),
    String(Seq<char>),
    Array(Seq<JsonView>),
    Object(Seq<(Seq<char>, JsonView)>),
}

/// The mathematical value of `j`.
pub open spec fn json_view(j: Json) -> JsonView
    decreases j,
{
    match j {
        Json::Null => JsonView::Null,
        Json::Bool(b) => JsonView::Bool(b),
        Json::Number(n) => JsonView::Number(n@),
        Json::String(s) => JsonView::String(s@),
        Json::Array(a) => JsonView::Array(
            Seq::new(
                a@.len(),
                |i: int|
                    if 0 <= i < a@.len() {
                        json_view(a@[i])
                    } else {
                        JsonView::Null
                    },
            ),
        ),
        Json::Object(o) => JsonView::Object(
            Seq::new(
                o@.len(),
                |i: int|
                    if 0 <= i < o@.len() {
                        (o@[i].0@, json_view(o@[i].1))
                    } else {
                        (Seq::empty(), JsonView::Null)
                    },
            ),
        ),
    }
}

impl View for Json {
    type V = JsonView;

    open spec fn view(&self) -> JsonView {
        json_view(*self)
    }
}

/// `serde_json::Value`: a JSON value as the serde_json crate holds it.
/// Nothing is known of what is inside one; it is only handed on.
#[verifier::external_type_specification]
#[verifier::external_body]
pub struct ExValue(serde_json::Value);

/// What `serde_json::from_str` reads from `text` as a `serde_json::Value`,
/// turned into a [`Json`] variant by variant; `None` where it reports an
/// error.
pub uninterp spec fn parsed_json(text: Seq<char>) -> Option<JsonView>;

/// What `serde_json::to_string` writes for the `serde_json::Value` that
/// `value` turns into, variant by variant; `None` where a number of `value`
/// is no JSON number or the writer reports an error.
pub uninterp spec fn json_text(value: JsonView) -> Option<Seq<char>>;

/// Turns a `serde_json::Value` into a [`Json`], one variant for one, with
/// `Number`'s `to_string` for a number. Nothing is claimed of the result.
#[verifier::external_body]
fn from_value(v: &serde_json::Value) -> Json {
    match v {
        serde_json::Value::Null => Json::Null,
        serde_json::Value::Bool(b) => Json::Bool(*b),
        serde_json::Value::Number(n) => Json::Number(n.to_string()),
        serde_json::Value::String(s) => Json::String(s.clone()),
        serde_json::Value::Array(a) => Json::Array(a.iter().map(from_value).collect()),
        serde_json::Value::Object(m) => Json::Object(
            m.iter().map(|(k, v)| (k.clone(), from_value(v))).collect(),
        ),
    }
}

/// Turns a [`Json`] into a `serde_json::Value`, one variant for one, with
/// `serde_json::from_str` for a number; `None` where a number's text is not
/// one. Nothing is claimed of the result.
#[verifier::external_body]
fn to_value(j: &Json) -> Option<serde_json::Value> {
    Some(
        match j {
            Json::Null => serde_json::Value::Null,
            Json::Bool(b) => serde_json::Value::Bool(*b),
            Json::Number(n) => serde_json::Value::Number(serde_json::from_str(n).ok()?),
            Json::String(s) => serde_json::Value::String(s.clone()),
            Json::Array(a) => serde_json::Value::Array(a.iter().map(to_value).collect::<Option<_>>()?),
            Json::Object(o) => serde_json::Value::Object(
                o.iter().map(|(k, v)| Some((k.clone(), to_value(v)?))).collect::<Option<_>>()?,
            ),
        },
    )
}

/// `serde_json::from_str` at the type `serde_json::Value`: the result is
/// what [`parsed_json`] names.
#[verifier::external_body]
fn read_json(text: &str) -> (r: Option<Json>)
    ensures
        match r {
            Some(j) => parsed_json(text@) == Some(j@),
            None => parsed_json(text@).is_none(),
        },
{
    serde_json::from_str::<serde_json::Value>(text).ok().as_ref().map(from_value)
}

/// `serde_json::to_string` of a `serde_json::Value`: the text is what
/// [`json_text`] names.
#[verifier::external_body]
fn write_json(value: &Json) -> (r: Option<String>)
    ensures
        match r {
            Some(s) => json_text(value@) == Some(s@),
            None => json_text(value@).is_none(),
        },
{
    serde_json::to_string(&to_value(value)?).ok()
}

/// The value of the first of `fields` whose key is `key`.
pub open spec fn lookup(fields: Seq<(Seq<char>, JsonView)>, key: Seq<char>) -> Option<JsonView>
    decreases fields.len(),
{
    if fields.len() == 0 {
        None
    } else if fields[0].0 == key {
        Some(fields[0].1)
    } else {
        lookup(fields.drop_first(), key)
    }
}

impl JsonView {
    /// The field `key` of an object; `None` for a value that is no object
    /// or has no such field.
    pub open spec fn field(self, key: Seq<char>) -> Option<JsonView> {
        match self {
            JsonView::Object(fields) => lookup(fields, key),
            _ => None,
        }
    }

    /// The text of a string; `None` for any other value.
    pub open spec fn text(self) -> Option<Seq<char>> {
        match self {
            JsonView::String(s) => Some(s),
            _ => None,
        }
    }

    /// The items of an array; `None` for any other value.
    pub open spec fn items(self) -> Option<Seq<JsonView>> {
        match self {
            JsonView::Array(a) => Some(a),
            _ => None,
        }
    }

    /// The fields of an object; `None` for any other value.
    pub open spec fn fields(self) -> Option<Seq<(Seq<char>, JsonView)>> {
        match self {
            JsonView::Object(o) => Some(o),
            _ => None,
        }
    }

    /// The text of the field `key`, where the value is an object and the
    /// field is a string.
    pub open spec fn text_at(self, key: Seq<char>) -> Option<Seq<char>> {
        match self.field(key) {
            Some(JsonView::String(s)) => Some(s),
            _ => None,
        }
    }

    /// The items of the field `key`, where the value is an object and the
    /// field is an array.
    pub open spec fn items_at(self, key: Seq<char>) -> Option<Seq<JsonView>> {
        match self.field(key) {
            Some(JsonView::Array(a)) => Some(a),
            _ => None,
        }
    }

    /// The number of a value that is one and is written as a `u64`,
    /// without a sign.
    pub open spec fn unsigned(self) -> Option<u64> {
        match self {
            JsonView::Number(n) => if n.len() > 0 && n[0] == '+' {
                None
            } else {
                parsed_u64(n)
            },
            _ => None,
        }
    }
}

/// The texts of the strings among `items`, in order.
pub open spec fn texts(items: Seq<JsonView>) -> Seq<Seq<char>>
    decreases items.len(),
{
    if items.len() == 0 {
        Seq::empty()
    } else {
        match items.last() {
            JsonView::String(s) => texts(items.drop_last()).push(s),
            _ => texts(items.drop_last()),
        }
    }
}

/// The views of the values of `v`.
pub open spec fn json_views(v: Seq<Json>) -> Seq<JsonView> {
    Seq::new(v.len(), |i: int| v[i]@)
}

/// The views of the fields of `v`.
pub open spec fn field_views(v: Seq<(String, Json)>) -> Seq<(Seq<char>, JsonView)> {
    Seq::new(v.len(), |i: int| (v[i].0@, v[i].1@))
}

/// What the view of an array or of an object is made of.
pub proof fn view_of_parts(j: Json)
    ensures
        j matches Json::Array(a) ==> j@ == JsonView::Array(json_views(a@)),
        j matches Json::Object(o) ==> j@ == JsonView::Object(field_views(o@)),
{
    match j {
        Json::Array(a) => {
            assert(j@->Array_0 =~= json_views(a@));
        },
        Json::Object(o) => {
            let got = j@->Object_0;
            assert forall|i: int| 0 <= i < o@.len() implies got[i] == field_views(o@)[i] by {
                assert(got[i].0 == o@[i].0@);
                assert(got[i].1 == o@[i].1@);
            }
            assert(got =~= field_views(o@));
        },
        _ => {},
    }
}

impl Json {
    /// Reads a value from JSON text; `None` where the text is not JSON.
    pub fn parse(text: &str) -> (r: Option<Json>)
        ensures
            match r {
                Some(j) => parsed_json(text@) == Some(j@),
                None => parsed_json(text@).is_none(),
            },
    {
        read_json(text)
    }

    /// Writes the value as JSON text; `None` where it cannot be written.
    pub fn to_text(&self) -> (r: Option<String>)
        ensures
            match r {
                Some(s) => json_text(self@) == Some(s@),
                None => json_text(self@).is_none(),
            },
    {
        write_json(self)
    }

    pub fn get<'a>(&'a self, key: &str) -> (r: Option<&'a Json>)
        ensures
            match r {
                Some(j) => self@.field(key@) == Some(j@),
                None => self@.field(key@).is_none(),
            },
    {
        match self {
            Json::Object(fields) => {
                let ghost all = field_views(fields@);
                proof {
                    view_of_parts(*self);
                }
                let mut i: usize = 0;
                assert(all.skip(0) =~= all);
                while i < fields.len()
                    invariant
                        i <= fields.len(),
                        all == field_views(fields@),
                        self@.field(key@) == lookup(all, key@),
                        lookup(all, key@) == lookup(all.skip(i as int), key@),
                    decreases fields.len() - i,
                {
                    assert(all.skip(i as int)[0] == all[i as int]);
                    if same_text(fields[i].0.as_str(), key) {
                        return Some(&fields[i].1);
                    }
                    assert(all.skip(i as int).drop_first() =~= all.skip(i + 1));
                    i += 1;
                }
                None
            },
            _ => None,
        }
    }

    pub fn as_str<'a>(&'a self) -> (r: Option<&'a str>)
        ensures
            match r {
                Some(s) => self@.text() == Some(s@),
                None => self@.text().is_none(),
            },
    {
        match self {
            Json::String(s) => Some(s.as_str()),
            _ => None,
        }
    }

    pub fn as_array<'a>(&'a self) -> (r: Option<&'a Vec<Json>>)
        ensures
            match r {
                Some(a) => self@.items() == Some(json_views(a@)),
                None => self@.items().is_none(),
            },
    {
        match self {
            Json::Array(a) => {
                proof {
                    view_of_parts(*self);
                }
                Some(a)
            },
            _ => None,
        }
    }

    pub fn text_at<'a>(&'a self, key: &str) -> (r: Option<&'a str>)
        ensures
            match r {
                Some(s) => self@.text_at(key@) == Some(s@),
                None => self@.text_at(key@).is_none(),
            },
    {
        match self.get(key) {
            Some(Json::String(s)) => Some(s.as_str()),
            _ => None,
        }
    }

    pub fn items_at<'a>(&'a self, key: &str) -> (r: Option<&'a Vec<Json>>)
        ensures
            match r {
                Some(a) => self@.items_at(key@) == Some(json_views(a@)),
                None => self@.items_at(key@).is_none(),
            },
    {
        match self.get(key) {
            Some(j) => j.as_array(),
            None => None,
        }
    }

    pub fn as_object<'a>(&'a self) -> (r: Option<&'a Vec<(String, Json)>>)
        ensures
            match r {
                Some(o) => self@.fields() == Some(field_views(o@)),
                None => self@.fields().is_none(),
            },
    {
        match self {
            Json::Object(o) => {
                proof {
                    view_of_parts(*self);
                }
                Some(o)
            },
            _ => None,
        }
    }

    pub fn as_u64(&self) -> (r: Option<u64>)
        ensures
            r == self@.unsigned(),
    {
        match self {
            Json::Number(n) => {
                if crate::text::starts_with(n.as_str(), "+") {
                    proof {
                        reveal_strlit("+");
                    }
                    assert(n@.take(1)[0] == '+');
                    None
                } else {
                    proof {
                        reveal_strlit("+");
                        if n@.len() > 0 && n@[0] == '+' {
                            assert(n@.take(1) =~= "+"@);
                        }
                    }
                    parse_u64(n.as_str())
                }
            },
            _ => None,
        }
    }
}

/// The strings among `items`, in order.
pub fn strings_in(items: &Vec<Json>) -> (r: Vec<String>)
    ensures
        views(r@) == texts(json_views(items@)),
{
    let ghost all = json_views(items@);
    let mut r: Vec<String> = Vec::new();
    let mut i: usize = 0;
    assert(views(r@) =~= texts(all.take(0)));
    while i < items.len()
        invariant
            i <= items.len(),
            all == json_views(items@),
            views(r@) == texts(all.take(i as int)),
        decreases items.len() - i,
    {
        assert(all.take(i + 1).drop_last() =~= all.take(i as int));
        assert(all.take(i + 1).last() == items@[i as int]@);
        match &items[i] {
            Json::String(s) => {
                let ghost before = views(r@);
                r.push(s.clone());
                assert(views(r@) =~= before.push(s@));
            },
            _ => {},
        }
        i += 1;
    }
    assert(all.take(i as int) =~= all);
    r
}

/// What `f` gives for each of `items` with its place, one after the other.
pub open spec fn each_at(items: Seq<JsonView>, f: spec_fn(int, JsonView) -> Seq<char>) -> Seq<char>
    decreases items.len(),
{
    if items.len() == 0 {
        Seq::empty()
    } else {
        each_at(items.drop_last(), f) + f(items.len() - 1, items.last())
    }
}

/// What one more item adds to [`each_at`].
pub proof fn each_step(items: Seq<JsonView>, i: int, f: spec_fn(int, JsonView) -> Seq<char>)
    requires
        0 <= i < items.len(),
    ensures
        each_at(items.take(i + 1), f) == each_at(items.take(i), f) + f(i, items[i]),
        each_at(items.take(0), f) == Seq::<char>::empty(),
{
    assert(items.take(i + 1).drop_last() =~= items.take(i));
}

} // verus!
