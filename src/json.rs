//! A JSON document as plain values, with its mathematical model.
use vstd::prelude::*;

use crate::text::str_eq;

verus! {

broadcast use vstd::std_specs::vec::group_vec_axioms;

/// `serde_json`'s number, carried through without being read.
#[verifier::external_type_specification]
#[verifier::external_body]
pub struct ExNumber(serde_json::Number);

/// `serde_json`'s document type, met only where documents are read and
/// written.
#[verifier::external_type_specification]
#[verifier::external_body]
pub struct ExValue(serde_json::Value);

/// `serde_json::Number`'s derived `Clone` copies the number.
pub assume_specification[ <serde_json::Number as Clone>::clone ](n: &serde_json::Number) -> (r: serde_json::Number)
    ensures
        r == *n,
;

/// A JSON value. Numbers are carried through untouched.
pub enum Json {
    Null,
    Bool(bool),
    Number(serde_json::Number),
    Str(String),
    Array(Vec<Json>),
    Object(Vec<(String, Json)>),
}

/// The model of a JSON value: strings as character sequences, arrays and
/// objects as sequences (an object keeps its fields in order).
pub enum JsonValue {
    Null,
    Bool(bool),
    Number(serde_json::Number),
    Str(Seq<char>),
    Array(Seq<JsonValue>),
    Object(Seq<(Seq<char>, JsonValue)>),
}

/// The model of a value.
pub open spec fn model(j: Json) -> JsonValue
    decreases j,
{
    match j {
        Json::Null => JsonValue::Null,
        Json::Bool(b) => JsonValue::Bool(b),
        Json::Number(n) => JsonValue::Number(n),
        Json::Str(s) => JsonValue::Str(s@),
        Json::Array(v) => JsonValue::Array(
            Seq::new(
                v@.len(),
                |i: int|
                    if 0 <= i < v@.len() {
                        model(v@[i])
                    } else {
                        JsonValue::Null
                    },
            ),
        ),
        Json::Object(f) => JsonValue::Object(
            Seq::new(
                f@.len(),
                |i: int|
                    if 0 <= i < f@.len() {
                        (f@[i].0@, model(f@[i].1))
                    } else {
                        (Seq::empty(), JsonValue::Null)
                    },
            ),
        ),
    }
}

impl View for Json {
    type V = JsonValue;

    open spec fn view(&self) -> JsonValue {
        model(*self)
    }
}

/// The first field of `fields` named `key`.
pub open spec fn lookup(fields: Seq<(Seq<char>, JsonValue)>, key: Seq<char>) -> Option<JsonValue>
    decreases fields.len(),
{
    if fields.len() == 0 {
        None
    } else if fields[0].0 == key {
        Some(fields[0].1)
    } else {
        lookup(fields.drop_first(), key)
    }
}

/// The models of a sequence of values.
pub open spec fn views(s: Seq<Json>) -> Seq<JsonValue> {
    Seq::new(s.len(), |i: int| s[i]@)
}

impl JsonValue {
    /// The field `key` of an object; nothing for any other value.
    pub open spec fn get(self, key: Seq<char>) -> Option<JsonValue> {
        match self {
            JsonValue::Object(fields) => lookup(fields, key),
            _ => None,
        }
    }

    /// The text of a string value.
    pub open spec fn as_str(self) -> Option<Seq<char>> {
        match self {
            JsonValue::Str(s) => Some(s),
            _ => None,
        }
    }

    /// The elements of an array value.
    pub open spec fn as_array(self) -> Option<Seq<JsonValue>> {
        match self {
            JsonValue::Array(a) => Some(a),
            _ => None,
        }
    }

    /// The field `key` when it holds a string.
    pub open spec fn str_field(self, key: Seq<char>) -> Option<Seq<char>> {
        match self.get(key) {
            Some(v) => v.as_str(),
            None => None,
        }
    }

    /// The field `key` when it holds an array.
    pub open spec fn array_field(self, key: Seq<char>) -> Option<Seq<JsonValue>> {
        match self.get(key) {
            Some(v) => v.as_array(),
            None => None,
        }
    }
}

/// The model of an optional reference to a value.
pub open spec fn opt_view(r: Option<&Json>) -> Option<JsonValue> {
    match r {
        Some(x) => Some(x@),
        None => None,
    }
}

impl Json {
    /// The field `key` of an object (the first one, should the name repeat).
    pub fn get(&self, key: &str) -> (r: Option<&Json>)
        ensures
            opt_view(r) == self@.get(key@),
    {
        match self {
            Json::Object(fields) => {
                let ghost fv = Seq::new(fields@.len(), |j: int| (fields@[j].0@, fields@[j].1@));
                assert(self@ == JsonValue::Object(fv)) by {
                    assert(self@->Object_0 =~= fv);
                }
                assert(fv.skip(0) =~= fv);
                let mut i: usize = 0;
                while i < fields.len()
                    invariant
                        i <= fields@.len(),
                        self@ == JsonValue::Object(fv),
                        fv.len() == fields@.len(),
                        forall|j: int| 0 <= j < fv.len() ==> #[trigger] fv[j] == (fields@[j].0@, fields@[j].1@),
                        lookup(fv, key@) == lookup(fv.skip(i as int), key@),
                    decreases fields.len() - i,
                {
                    assert(fv.skip(i as int).drop_first() =~= fv.skip(i + 1));
                    assert(fv.skip(i as int)[0] == fv[i as int]);
                    if str_eq(fields[i].0.as_str(), key) {
                        return Some(&fields[i].1);
                    }
                    i += 1;
                }
                None
            },
            _ => None,
        }
    }

    /// The field `key` when it holds a string.
    pub fn get_str(&self, key: &str) -> (r: Option<&String>)
        ensures
            match r {
                Some(s) => self@.str_field(key@) == Some(s@),
                None => self@.str_field(key@) is None,
            },
    {
        match self.get(key) {
            Some(Json::Str(s)) => Some(s),
            _ => None,
        }
    }

    /// The field `key` when it holds an array.
    pub fn get_array(&self, key: &str) -> (r: Option<&Vec<Json>>)
        ensures
            match r {
                Some(a) => self@.array_field(key@) == Some(views(a@)),
                None => self@.array_field(key@) is None,
            },
    {
        match self.get(key) {
            Some(Json::Array(a)) => {
                proof {
                    assert(views(a@) =~= self@.array_field(key@)->0);
                }
                Some(a)
            },
            _ => None,
        }
    }
}


proof fn lemma_element_smaller(j: Json, i: int)
    requires
        j is Array,
        0 <= i < j->Array_0@.len(),
    ensures
        decreases_to!(j => j->Array_0@[i]),
{
    let v = j->Array_0;
    assert(decreases_to!(j => v));
    assert(decreases_to!(v => v@));
    assert(decreases_to!(v@ => v@[i]));
}

proof fn lemma_field_smaller(j: Json, i: int)
    requires
        j is Object,
        0 <= i < j->Object_0@.len(),
    ensures
        decreases_to!(j => j->Object_0@[i].1),
{
    let f = j->Object_0;
    assert(decreases_to!(j => f));
    assert(decreases_to!(f => f@));
    assert(decreases_to!(f@ => f@[i]));
    assert(decreases_to!(f@[i] => f@[i].1));
}

/// The model of an optional value.
pub open spec fn opt_model(r: Option<Json>) -> Option<JsonValue> {
    match r {
        Some(x) => Some(x@),
        None => None,
    }
}

/// The models of a sequence of fields.
pub open spec fn fields_view(f: Seq<(String, Json)>) -> Seq<(Seq<char>, JsonValue)> {
    Seq::new(f.len(), |i: int| (f[i].0@, f[i].1@))
}

/// What `serde_json::from_str` reads from `text`: the value it denotes, or
/// nothing when `text` is not a JSON document.
pub uninterp spec fn parsed_json(text: Seq<char>) -> Option<JsonValue>;

/// The compact text that `serde_json` writes for a value.
pub uninterp spec fn json_text(v: JsonValue) -> Seq<char>;

/// Moves a `serde_json` value into the library's representation, one node
/// for one node.
#[verifier::external_body]
fn from_serde(v: serde_json::Value) -> Json {
    match v {
        serde_json::Value::Null => Json::Null,
        serde_json::Value::Bool(b) => Json::Bool(b),
        serde_json::Value::Number(n) => Json::Number(n),
        serde_json::Value::String(s) => Json::Str(s),
        serde_json::Value::Array(a) => Json::Array(a.into_iter().map(from_serde).collect()),
        serde_json::Value::Object(m) => Json::Object(m.into_iter().map(|(k, x)| (k, from_serde(x))).collect()),
    }
}

/// Copies a value into `serde_json`'s representation, one node for one node.
#[verifier::external_body]
fn to_serde(v: &Json) -> serde_json::Value {
    match v {
        Json::Null => serde_json::Value::Null,
        Json::Bool(b) => serde_json::Value::Bool(*b),
        Json::Number(n) => serde_json::Value::Number(n.clone()),
        Json::Str(s) => serde_json::Value::String(s.clone()),
        Json::Array(a) => serde_json::Value::Array(a.iter().map(to_serde).collect()),
        Json::Object(f) => serde_json::Value::Object(f.iter().map(|(k, x)| (k.clone(), to_serde(x))).collect()),
    }
}

/// Relies on `serde_json::from_str`: the document that `text` holds, if any.
#[verifier::external_body]
pub fn parse_json(text: &str) -> (r: Option<Json>)
    ensures
        opt_model(r) == parsed_json(text@),
{
    serde_json::from_str::<serde_json::Value>(text).ok().map(from_serde)
}

/// Relies on `serde_json::Value`'s `to_string`: the compact text of `v`.
#[verifier::external_body]
pub fn write_json(v: &Json) -> (r: String)
    ensures
        r@ == json_text(v@),
{
    to_serde(v).to_string()
}

impl Json {
    /// A string value.
    pub fn string(s: &str) -> (r: Json)
        ensures
            r@ == JsonValue::Str(s@),
    {
        Json::Str(String::from_str(s))
    }

    /// An object with the given fields, in order.
    pub fn object(fields: Vec<(String, Json)>) -> (r: Json)
        ensures
            r@ == JsonValue::Object(fields_view(fields@)),
    {
        let r = Json::Object(fields);
        assert(r@->Object_0 =~= fields_view(fields@));
        r
    }

    /// An array with the given elements, in order.
    pub fn array(items: Vec<Json>) -> (r: Json)
        ensures
            r@ == JsonValue::Array(views(items@)),
    {
        let r = Json::Array(items);
        assert(r@->Array_0 =~= views(items@));
        r
    }

    /// A copy of the value, node for node.
    pub fn deep_clone(&self) -> (r: Json)
        ensures
            r@ == self@,
        decreases self,
    {
        match self {
            Json::Null => Json::Null,
            Json::Bool(b) => Json::Bool(*b),
            Json::Number(n) => Json::Number(n.clone()),
            Json::Str(s) => Json::Str(s.clone()),
            Json::Array(a) => {
                let mut out: Vec<Json> = Vec::new();
                let mut i: usize = 0;
                while i < a.len()
                    invariant
                        *self == Json::Array(*a),
                        i <= a@.len(),
                        out@.len() == i,
                        forall|j: int| 0 <= j < i ==> #[trigger] out@[j]@ == a@[j]@,
                    decreases a.len() - i,
                {
                    proof {
                        lemma_element_smaller(*self, i as int);
                    }
                    out.push(a[i].deep_clone());
                    i += 1;
                }
                let r = Json::Array(out);
                assert(r@->Array_0 =~= self@->Array_0) by {
                    assert forall|j: int| 0 <= j < a@.len() implies r@->Array_0[j] == self@->Array_0[j] by {
                        assert(out@[j]@ == a@[j]@);
                    }
                }
                r
            },
            Json::Object(f) => {
                let mut out: Vec<(String, Json)> = Vec::new();
                let mut i: usize = 0;
                while i < f.len()
                    invariant
                        *self == Json::Object(*f),
                        i <= f@.len(),
                        out@.len() == i,
                        forall|j: int|
                            0 <= j < i ==> #[trigger] out@[j].0@ == f@[j].0@ && out@[j].1@ == f@[j].1@,
                    decreases f.len() - i,
                {
                    proof {
                        lemma_field_smaller(*self, i as int);
                    }
                    out.push((f[i].0.clone(), f[i].1.deep_clone()));
                    i += 1;
                }
                let r = Json::Object(out);
                assert(r@->Object_0 =~= self@->Object_0);
                r
            },
        }
    }
}

/// The object `{k1: v1}`.
pub fn obj1(k1: &str, v1: Json) -> (r: Json)
    ensures
        r@ == JsonValue::Object(seq![(k1@, v1@)]),
{
    let mut f: Vec<(String, Json)> = Vec::new();
    f.push(field(k1, v1));
    let r = Json::object(f);
    assert(fields_view(f@) =~= seq![(k1@, v1@)]);
    r
}

/// The object `{k1: v1, k2: v2}`.
pub fn obj2(k1: &str, v1: Json, k2: &str, v2: Json) -> (r: Json)
    ensures
        r@ == JsonValue::Object(seq![(k1@, v1@), (k2@, v2@)]),
{
    let mut f: Vec<(String, Json)> = Vec::new();
    f.push(field(k1, v1));
    f.push(field(k2, v2));
    let r = Json::object(f);
    assert(fields_view(f@) =~= seq![(k1@, v1@), (k2@, v2@)]);
    r
}

/// The object `{k1: v1, k2: v2, k3: v3}`.
pub fn obj3(k1: &str, v1: Json, k2: &str, v2: Json, k3: &str, v3: Json) -> (r: Json)
    ensures
        r@ == JsonValue::Object(seq![(k1@, v1@), (k2@, v2@), (k3@, v3@)]),
{
    let mut f: Vec<(String, Json)> = Vec::new();
    f.push(field(k1, v1));
    f.push(field(k2, v2));
    f.push(field(k3, v3));
    let r = Json::object(f);
    assert(fields_view(f@) =~= seq![(k1@, v1@), (k2@, v2@), (k3@, v3@)]);
    r
}

/// The object `{k1: v1, k2: v2, k3: v3, k4: v4}`.
pub fn obj4(k1: &str, v1: Json, k2: &str, v2: Json, k3: &str, v3: Json, k4: &str, v4: Json) -> (r:
    Json)
    ensures
        r@ == JsonValue::Object(seq![(k1@, v1@), (k2@, v2@), (k3@, v3@), (k4@, v4@)]),
{
    let mut f: Vec<(String, Json)> = Vec::new();
    f.push(field(k1, v1));
    f.push(field(k2, v2));
    f.push(field(k3, v3));
    f.push(field(k4, v4));
    let r = Json::object(f);
    assert(fields_view(f@) =~= seq![(k1@, v1@), (k2@, v2@), (k3@, v3@), (k4@, v4@)]);
    r
}

/// The array `[v]`.
pub fn arr1(v: Json) -> (r: Json)
    ensures
        r@ == JsonValue::Array(seq![v@]),
{
    let mut a: Vec<Json> = Vec::new();
    a.push(v);
    let r = Json::array(a);
    assert(views(a@) =~= seq![v@]);
    r
}

/// Appending a value appends its model.
pub proof fn lemma_views_push(s: Seq<Json>, x: Json)
    ensures
        views(s.push(x)) == views(s).push(x@),
{
    assert(views(s.push(x)) =~= views(s).push(x@));
}

/// Appends a value to `out`.
pub fn push_value(out: &mut Vec<Json>, v: Json)
    ensures
        views(final(out)@) == views(old(out)@).push(v@),
{
    proof {
        lemma_views_push(out@, v);
    }
    out.push(v);
}

/// A field `(key, value)` of an object.
pub fn field(key: &str, value: Json) -> (r: (String, Json))
    ensures
        r.0@ == key@,
        r.1@ == value@,
{
    (String::from_str(key), value)
}

} // verus!
