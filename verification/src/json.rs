//! JSON values, and the text that `serde_json` makes of them.

use vstd::prelude::*;
use vstd::string::*;
use vstd::utf8::encode_utf8;

use crate::list::put;
use crate::order::precedes;
use crate::text::{same, text};

verus! {

/// A JSON value.
#[derive(Debug)]
pub enum Json {
    Null,
    Bool(bool),
    Num(u64),
    /// A number that `u64` does not hold, by its text.
    Wide(String),
    Str(String),
    Arr(Vec<Json>),
    Obj(Vec<(String, Json)>),
}

/// What a [`Json`] value means.
pub enum JsonV {
    Null,
    Bool(bool),
    Num(u64),
    Wide(Seq<char>),
    Str(Seq<char>),
    Arr(Seq<JsonV>),
    Obj(Seq<(Seq<char>, JsonV)>),
}

/// The meaning of a JSON value.
pub open spec fn json_view(j: Json) -> JsonV
    decreases j,
{
    match j {
        Json::Null => JsonV::Null,
        Json::Bool(b) => JsonV::Bool(b),
        Json::Num(n) => JsonV::Num(n),
        Json::Wide(s) => JsonV::Wide(s@),
        Json::Str(s) => JsonV::Str(s@),
        Json::Arr(v) => JsonV::Arr(
            Seq::new(
                v@.len(),
                |i: int|
                    if 0 <= i < v@.len() {
                        json_view(v@[i])
                    } else {
                        JsonV::Null
                    },
            ),
        ),
        Json::Obj(v) => JsonV::Obj(
            Seq::new(
                v@.len(),
                |i: int|
                    if 0 <= i < v@.len() {
                        (v@[i].0@, json_view(v@[i].1))
                    } else {
                        (Seq::empty(), JsonV::Null)
                    },
            ),
        ),
    }
}

impl DeepView for Json {
    type V = JsonV;

    open spec fn deep_view(&self) -> JsonV {
        json_view(*self)
    }
}

/// An array of values.
pub fn arr(v: Vec<Json>) -> (r: Json)
    ensures
        r.deep_view() == JsonV::Arr(v.deep_view()),
{
    let r = Json::Arr(v);
    assert(r.deep_view()->Arr_0 == v.deep_view());
    r
}

/// An object of fields.
pub fn obj(v: Vec<(String, Json)>) -> (r: Json)
    ensures
        r.deep_view() == JsonV::Obj(v.deep_view()),
{
    let r = Json::Obj(v);
    assert(r.deep_view()->Obj_0 == v.deep_view());
    r
}

/// A text.
pub fn string(s: &str) -> (r: Json)
    ensures
        r.deep_view() == JsonV::Str(s@),
{
    Json::Str(text(s))
}

/// An object's fields: none yet.
pub open spec fn no_fields() -> Seq<(Seq<char>, JsonV)> {
    Seq::empty()
}

pub fn new_fields() -> (r: Vec<(String, Json)>)
    ensures
        r.deep_view() == no_fields(),
{
    let v: Vec<(String, Json)> = Vec::new();
    assert(v.deep_view() == no_fields());
    v
}

/// Appends the field `key: value`.
pub fn field(out: &mut Vec<(String, Json)>, key: &str, value: Json)
    ensures
        final(out).deep_view() == old(out).deep_view().push((key@, value.deep_view())),
{
    put(out, (text(key), value));
}

/// An array of texts.
pub open spec fn strings(v: Seq<Seq<char>>) -> JsonV {
    JsonV::Arr(Seq::new(v.len(), |i: int| JsonV::Str(v[i])))
}

pub fn string_arr(v: &Vec<String>) -> (r: Json)
    ensures
        r.deep_view() == strings(v.deep_view()),
{
    let ghost all = strings(v.deep_view())->Arr_0;
    let mut out: Vec<Json> = Vec::new();
    let mut i: usize = 0;
    while i < v.len()
        invariant
            i <= v@.len(),
            all == strings(v.deep_view())->Arr_0,
            out.deep_view() == all.take(i as int),
        decreases v@.len() - i,
    {
        put(&mut out, string(v[i].as_str()));
        i = i + 1;
        assert(out.deep_view() == all.take(i as int));
    }
    assert(all.take(all.len() as int) == all);
    arr(out)
}

/// A text, or null.
pub open spec fn opt_string(s: Option<Seq<char>>) -> JsonV {
    match s {
        Some(t) => JsonV::Str(t),
        None => JsonV::Null,
    }
}

pub fn string_or_null(s: &Option<String>) -> (r: Json)
    ensures
        r.deep_view() == opt_string(s.deep_view()),
{
    match s {
        Some(t) => string(t.as_str()),
        None => Json::Null,
    }
}

/// The type `serde_json::Value`, opaque here.
#[verifier::external_type_specification]
#[verifier::external_body]
pub struct ExSerdeValue(serde_json::Value);

/// The value that `serde_json` reads from a text in UTF-8, or its complaint.
pub uninterp spec fn json_read(bytes: Seq<u8>) -> Result<JsonV, Seq<char>>;

/// The text of a value on one line, as `serde_json` writes it.
pub uninterp spec fn compact_json(j: JsonV) -> Seq<char>;

/// The text of a value over several lines, as `serde_json` writes it.
pub uninterp spec fn pretty_json(j: JsonV) -> Seq<char>;

/// A value as a `serde_json::Value`.
#[verifier::external_body]
fn value_of(j: &Json) -> serde_json::Value {
    match j {
        Json::Null => serde_json::Value::Null,
        Json::Bool(b) => serde_json::Value::from(*b),
        Json::Num(n) => serde_json::Value::from(*n),
        Json::Wide(s) => serde_json::from_str(s).unwrap_or_default(),
        Json::Str(s) => serde_json::Value::from(s.as_str()),
        Json::Arr(v) => serde_json::Value::Array(v.iter().map(value_of).collect()),
        Json::Obj(v) => serde_json::Value::Object(v.iter().map(|f| (f.0.clone(), value_of(&f.1))).collect()),
    }
}

/// The keys of an object stand in the order of texts, each once.
pub open spec fn keys_ascend(v: Seq<(Seq<char>, JsonV)>) -> bool {
    forall|i: int, j: int|
        #![trigger v[i], v[j]]
        0 <= i < j < v.len() ==> precedes(v[i].0, v[j].0)
}

/// A value that is read as it was written: of arrays and objects at most `depth` are nested, the
/// keys of an object ascend, and every number fits `u64`.
pub open spec fn tidy(j: JsonV, depth: nat) -> bool
    decreases depth,
{
    match j {
        JsonV::Wide(_) => false,
        JsonV::Arr(v) => depth > 0 && forall|i: int|
            0 <= i < v.len() ==> tidy(#[trigger] v[i], (depth - 1) as nat),
        JsonV::Obj(v) => depth > 0 && keys_ascend(v) && forall|i: int|
            0 <= i < v.len() ==> tidy((#[trigger] v[i]).1, (depth - 1) as nat),
        _ => true,
    }
}

/// How many arrays and objects `serde_json` reads inside each other.
pub const NESTED: u64 = 127;

/// The text of a value on one line: `serde_json::to_string`, which cannot fail on a value that has
/// only string keys. Reading a tidy value's text gives the value back.
#[verifier::external_body]
pub(crate) fn to_compact(j: &Json) -> (r: String)
    ensures
        r@ == compact_json(j.deep_view()),
        (tidy(j.deep_view(), NESTED as nat) ==> json_read(encode_utf8(r@)) == Ok::<
            JsonV,
            Seq<char>,
        >(j.deep_view())),
{
    serde_json::to_string(&value_of(j)).unwrap_or_default()
}

/// A `serde_json::Value` as a value; a number that `u64` does not hold comes as its text.
#[verifier::external_body]
fn json_of(v: serde_json::Value) -> Json {
    match v {
        serde_json::Value::Null => Json::Null,
        serde_json::Value::Bool(b) => Json::Bool(b),
        serde_json::Value::Number(n) => n.as_u64().map_or_else(|| Json::Wide(n.to_string()), Json::Num),
        serde_json::Value::String(s) => Json::Str(s),
        serde_json::Value::Array(v) => Json::Arr(v.into_iter().map(json_of).collect()),
        serde_json::Value::Object(m) => Json::Obj(m.into_iter().map(|f| (f.0, json_of(f.1))).collect()),
    }
}

/// Reads a value with `serde_json::from_slice`. What the reader makes of the bytes is named, not
/// stated.
#[verifier::external_body]
pub(crate) fn parse_json(bytes: &[u8]) -> (r: Result<Json, String>)
    ensures
        match r {
            Ok(j) => json_read(bytes@) == Ok::<JsonV, Seq<char>>(j.deep_view()),
            Err(e) => json_read(bytes@) == Err::<JsonV, Seq<char>>(e@),
        },
{
    match serde_json::from_slice(bytes) {
        Ok(v) => Ok(json_of(v)),
        Err(e) => Err(e.to_string()),
    }
}

/// The text of a value over several lines: `serde_json::to_string_pretty`, which cannot fail on a
/// value that has only string keys.
#[verifier::external_body]
pub(crate) fn to_pretty(j: &Json) -> (r: String)
    ensures
        r@ == pretty_json(j.deep_view()),
{
    serde_json::to_string_pretty(&value_of(j)).unwrap_or_default()
}

impl Json {
    /// The value as text over several lines.
    pub fn pretty(&self) -> (r: String)
        ensures
            r@ == pretty_json(self.deep_view()),
    {
        to_pretty(self)
    }
}

/// The value of the first field of this name from number `i` on.
pub open spec fn member_from(v: Seq<(Seq<char>, JsonV)>, key: Seq<char>, i: int) -> Option<JsonV>
    decreases v.len() - i,
{
    if i < 0 || i >= v.len() {
        None
    } else if v[i].0 == key {
        Some(v[i].1)
    } else {
        member_from(v, key, i + 1)
    }
}

/// The value of an object's field; a value that is no object has none.
pub open spec fn member(j: JsonV, key: Seq<char>) -> Option<JsonV> {
    match j {
        JsonV::Obj(v) => member_from(v, key, 0),
        _ => None,
    }
}

impl Json {
    /// The value of an object's field.
    pub fn member(&self, key: &str) -> (r: Option<&Json>)
        ensures
            match r {
                Some(x) => member(self.deep_view(), key@) == Some(x.deep_view()),
                None => member(self.deep_view(), key@) is None,
            },
    {
        match self {
            Json::Obj(v) => {
                let ghost fields = self.deep_view()->Obj_0;
                let mut i: usize = 0;
                while i < v.len()
                    invariant
                        i <= v@.len(),
                        *self == Json::Obj(*v),
                        fields == self.deep_view()->Obj_0,
                        member_from(fields, key@, 0) == member_from(fields, key@, i as int),
                    decreases v@.len() - i,
                {
                    assert(fields[i as int] == (v@[i as int].0@, v@[i as int].1.deep_view()));
                    if same(v[i].0.as_str(), key) {
                        return Some(&v[i].1);
                    }
                    i = i + 1;
                }
                None
            },
            _ => None,
        }
    }
}

} // verus!
