//! JSON values as plain data.
//!
//! Parsing is left to `serde_json`. What it hands back is copied, node by
//! node, into [`Json`], a tree of ordinary Rust values that the rest of the
//! library can read and reason about.

use vstd::prelude::*;

verus! {

/// A JSON number, held by the three readings that `serde_json` offers of it.
///
/// `bits` is the IEEE-754 bit pattern of the number read as a 64-bit float.
#[derive(Clone, Copy, Debug)]
pub struct JsonNumber {
    pub signed: Option<i64>,
    pub unsigned: Option<u64>,
    pub bits: Option<u64>,
}

/// A JSON value. The entries of an object keep the order in which they were
/// handed over.
#[derive(Debug)]
pub enum Json {
    Null,
    Bool(bool),
    Number(JsonNumber),
    Text(String),
    Array(Vec<Json>),
    Object(Vec<(String, Json)>),
}

/// The mathematical model of a JSON value.
pub enum JsonModel {
    Null,
    Bool(bool),
    Number(JsonNumber),
    Text(Seq<char>),
    Array(Seq<JsonModel>),
    Object(Seq<(Seq<char>, JsonModel)>),
}

/// What a [`Json`] value holds.
pub open spec fn json_model(j: Json) -> JsonModel
    decreases j,
{
    match j {
        Json::Null => JsonModel::Null,
        Json::Bool(b) => JsonModel::Bool(b),
        Json::Number(n) => JsonModel::Number(n),
        Json::Text(s) => JsonModel::Text(s@),
        Json::Array(items) => JsonModel::Array(
            Seq::new(
                items@.len(),
                |i: int|
                    if 0 <= i < items@.len() {
                        json_model(items@[i])
                    } else {
                        JsonModel::Null
                    },
            ),
        ),
        Json::Object(entries) => JsonModel::Object(
            Seq::new(
                entries@.len(),
                |i: int|
                    if 0 <= i < entries@.len() {
                        (entries@[i].0@, json_model(entries@[i].1))
                    } else {
                        (Seq::empty(), JsonModel::Null)
                    },
            ),
        ),
    }
}

impl View for Json {
    type V = JsonModel;

    open spec fn view(&self) -> JsonModel {
        json_model(*self)
    }
}

/// The value stored under `key` in a list of object entries: that of the
/// first entry with this key.
pub open spec fn lookup(entries: Seq<(Seq<char>, JsonModel)>, key: Seq<char>) -> Option<JsonModel>
    decreases entries.len(),
{
    if entries.len() == 0 {
        None
    } else if entries[0].0 == key {
        Some(entries[0].1)
    } else {
        lookup(entries.drop_first(), key)
    }
}

impl JsonModel {
    /// The member `key` of an object; `None` for anything that is not an
    /// object, or has no such member.
    pub open spec fn get(self, key: Seq<char>) -> Option<JsonModel> {
        match self {
            JsonModel::Object(entries) => lookup(entries, key),
            _ => None,
        }
    }

    pub open spec fn as_object(self) -> Option<Seq<(Seq<char>, JsonModel)>> {
        match self {
            JsonModel::Object(entries) => Some(entries),
            _ => None,
        }
    }

    pub open spec fn as_array(self) -> Option<Seq<JsonModel>> {
        match self {
            JsonModel::Array(items) => Some(items),
            _ => None,
        }
    }

    pub open spec fn as_text(self) -> Option<Seq<char>> {
        match self {
            JsonModel::Text(s) => Some(s),
            _ => None,
        }
    }

    pub open spec fn as_bool(self) -> Option<bool> {
        match self {
            JsonModel::Bool(b) => Some(b),
            _ => None,
        }
    }

    /// The number as a signed 64-bit integer, where it is one.
    pub open spec fn as_i64(self) -> Option<i64> {
        match self {
            JsonModel::Number(n) => n.signed,
            _ => None,
        }
    }
}

/// `lookup` skips the entries in front that carry another key.
proof fn lemma_lookup_skip(entries: Seq<(Seq<char>, JsonModel)>, key: Seq<char>, i: int)
    requires
        0 <= i <= entries.len(),
        forall|k: int| 0 <= k < i ==> entries[k].0 != key,
    ensures
        lookup(entries, key) == lookup(entries.skip(i), key),
    decreases i,
{
    if i == 0 {
        assert(entries.skip(0) =~= entries);
    } else {
        lemma_lookup_skip(entries, key, i - 1);
        assert(entries.skip(i - 1).drop_first() =~= entries.skip(i));
    }
}

impl Json {
    /// The member `key` of an object.
    pub fn get(&self, key: &str) -> (r: Option<&Json>)
        ensures
            match r {
                Some(j) => self@.get(key@) == Some(j@),
                None => self@.get(key@) is None,
            },
    {
        match self {
            Json::Object(entries) => {
                let wanted = key.to_owned();
                let ghost model = self@->Object_0;
                let mut i: usize = 0;
                while i < entries.len()
                    invariant
                        i <= entries.len(),
                        wanted@ == key@,
                        self@ == JsonModel::Object(model),
                        model.len() == entries@.len(),
                        forall|k: int|
                            0 <= k < entries@.len() ==> model[k] == (
                                entries@[k].0@,
                                entries@[k].1@,
                            ),
                        forall|k: int| 0 <= k < i ==> model[k].0 != key@,
                    decreases entries.len() - i,
                {
                    if entries[i].0 == wanted {
                        proof {
                            lemma_lookup_skip(model, key@, i as int);
                        }
                        return Some(&entries[i].1);
                    }
                    i += 1;
                }
                proof {
                    lemma_lookup_skip(model, key@, i as int);
                }
                None
            },
            _ => None,
        }
    }

    pub fn as_object(&self) -> (r: Option<&Vec<(String, Json)>>)
        ensures
            match r {
                Some(entries) => self@ == Json::Object(*entries)@,
                None => self@.as_object() is None,
            },
    {
        match self {
            Json::Object(entries) => Some(entries),
            _ => None,
        }
    }

    pub fn as_array(&self) -> (r: Option<&Vec<Json>>)
        ensures
            match r {
                Some(items) => self@.as_array() == Some(items.deep_view()) && self@
                    == Json::Array(*items)@,
                None => self@.as_array() is None,
            },
    {
        match self {
            Json::Array(items) => {
                assert(items.deep_view() =~= self@->Array_0);
                Some(items)
            },
            _ => None,
        }
    }

    pub fn as_str(&self) -> (r: Option<&str>)
        ensures
            match r {
                Some(s) => self@.as_text() == Some(s@),
                None => self@.as_text() is None,
            },
    {
        match self {
            Json::Text(s) => Some(s.as_str()),
            _ => None,
        }
    }

    pub fn as_bool(&self) -> (r: Option<bool>)
        ensures
            r == self@.as_bool(),
    {
        match self {
            Json::Bool(b) => Some(*b),
            _ => None,
        }
    }

    pub fn as_i64(&self) -> (r: Option<i64>)
        ensures
            r == self@.as_i64(),
    {
        match self {
            Json::Number(n) => n.signed,
            _ => None,
        }
    }
}

impl DeepView for Json {
    type V = JsonModel;

    open spec fn deep_view(&self) -> JsonModel {
        self@
    }
}

/// `serde_json::Value`, a parsed JSON document. Nothing of its inside is
/// visible here: [`value_model`] names what it holds.
#[verifier::external_type_specification]
#[verifier::external_body]
pub struct ExValue(serde_json::Value);

/// `serde_json::Error`, the reason why a text was refused.
#[verifier::external_type_specification]
#[verifier::external_body]
pub struct ExError(serde_json::Error);

/// What a `serde_json::Value` holds: the members of an object in the order
/// in which the value's own iterator walks them.
pub uninterp spec fn value_model(v: serde_json::Value) -> JsonModel;

/// What each value of a list holds.
pub open spec fn values_model(values: Seq<serde_json::Value>) -> Seq<JsonModel> {
    values.map_values(|v: serde_json::Value| value_model(v))
}

/// What `serde_json::from_str` makes of a text: the document it holds, or
/// `None` where the text is no JSON document.
pub uninterp spec fn parsed_text(text: Seq<char>) -> Option<JsonModel>;

/// One node of a `serde_json::Value`, with its children still unread.
pub enum Shallow<'a> {
    Null,
    Bool(bool),
    Number,
    Text(&'a String),
    Array(&'a Vec<serde_json::Value>),
    Object(Vec<(&'a String, &'a serde_json::Value)>),
}

/// Tells the six variants of `serde_json::Value` apart and hands out what
/// the variant holds. The members of an object come from `Map::iter`. The
/// contract says that [`value_model`] of the node is built from exactly
/// these parts, in this order.
#[verifier::external_body]
fn unpack<'a>(v: &'a serde_json::Value) -> (r: Shallow<'a>)
    ensures
        match r {
            Shallow::Null => value_model(*v) == JsonModel::Null,
            Shallow::Bool(b) => value_model(*v) == JsonModel::Bool(b),
            Shallow::Number => value_model(*v) is Number,
            Shallow::Text(s) => value_model(*v) == JsonModel::Text(s@),
            Shallow::Array(items) => value_model(*v) == JsonModel::Array(
                Seq::new(items@.len(), |i: int| value_model(items@[i])),
            ),
            Shallow::Object(entries) => value_model(*v) == JsonModel::Object(
                Seq::new(entries@.len(), |i: int| (entries@[i].0@, value_model(*entries@[i].1))),
            ),
        },
{
    match v {
        serde_json::Value::Null => Shallow::Null,
        serde_json::Value::Bool(b) => Shallow::Bool(*b),
        serde_json::Value::Number(_) => Shallow::Number,
        serde_json::Value::String(s) => Shallow::Text(s),
        serde_json::Value::Array(items) => Shallow::Array(items),
        serde_json::Value::Object(entries) => Shallow::Object(entries.iter().collect()),
    }
}

/// `serde_json::Value::as_i64`: the reading of a number as `i64`, which is
/// the `signed` field of the number in [`value_model`].
#[verifier::external_body]
fn value_as_i64(v: &serde_json::Value) -> (r: Option<i64>)
    ensures
        value_model(*v) matches JsonModel::Number(n) ==> r == n.signed,
{
    v.as_i64()
}

/// `serde_json::Value::as_u64`: the reading of a number as `u64`, which is
/// the `unsigned` field of the number in [`value_model`].
#[verifier::external_body]
fn value_as_u64(v: &serde_json::Value) -> (r: Option<u64>)
    ensures
        value_model(*v) matches JsonModel::Number(n) ==> r == n.unsigned,
{
    v.as_u64()
}

/// `serde_json::Value::as_f64`, handed on as the bit pattern of the float:
/// the `bits` field of the number in [`value_model`].
#[verifier::external_body]
fn value_as_bits(v: &serde_json::Value) -> (r: Option<u64>)
    ensures
        value_model(*v) matches JsonModel::Number(n) ==> r == n.bits,
{
    v.as_f64().map(|x| x.to_bits())
}

/// `serde_json::from_str` at the type `Value`. It succeeds exactly on the
/// texts on which [`parsed_text`] is defined, and the value it returns holds
/// that document.
#[verifier::external_body]
pub(crate) fn parse_value(text: &str) -> (r: Result<serde_json::Value, serde_json::Error>)
    ensures
        r is Ok <==> parsed_text(text@) is Some,
        r matches Ok(v) ==> Some(value_model(v)) == parsed_text(text@),
{
    serde_json::from_str(text)
}

/// A text that is no JSON document.
#[derive(Clone, Copy, Debug, PartialEq, Eq, Structural)]
pub struct MalformedJson;

impl Json {
    /// Copies a `serde_json::Value` into a [`Json`] tree.
    pub fn from_value(v: &serde_json::Value) -> (j: Json)
        ensures
            j@ == value_model(*v),
        decreases value_model(*v),
    {
        match unpack(v) {
            Shallow::Null => Json::Null,
            Shallow::Bool(b) => Json::Bool(b),
            Shallow::Number => Json::Number(
                JsonNumber {
                    signed: value_as_i64(v),
                    unsigned: value_as_u64(v),
                    bits: value_as_bits(v),
                },
            ),
            Shallow::Text(s) => Json::Text(s.clone()),
            Shallow::Array(items) => {
                let ghost model = value_model(*v)->Array_0;
                let mut out: Vec<Json> = Vec::new();
                let mut i: usize = 0;
                while i < items.len()
                    invariant
                        i <= items.len(),
                        out@.len() == i,
                        value_model(*v) == JsonModel::Array(model),
                        model.len() == items@.len(),
                        forall|k: int| 0 <= k < items@.len() ==> model[k] == value_model(items@[k]),
                        forall|k: int| 0 <= k < i ==> out@[k]@ == model[k],
                    decreases items.len() - i,
                {
                    assert(model[i as int] == value_model(items@[i as int]));
                    assert(decreases_to!(value_model(*v) => value_model(*v)->Array_0[i as int]));
                    let item = Json::from_value(&items[i]);
                    out.push(item);
                    i += 1;
                }
                let j = Json::Array(out);
                assert(j@->Array_0 =~= model);
                j
            },
            Shallow::Object(entries) => {
                let ghost model = value_model(*v)->Object_0;
                let mut out: Vec<(String, Json)> = Vec::new();
                let mut i: usize = 0;
                while i < entries.len()
                    invariant
                        i <= entries.len(),
                        out@.len() == i,
                        value_model(*v) == JsonModel::Object(model),
                        model.len() == entries@.len(),
                        forall|k: int|
                            0 <= k < entries@.len() ==> model[k] == (
                                entries@[k].0@,
                                value_model(*entries@[k].1),
                            ),
                        forall|k: int| 0 <= k < i ==> (out@[k].0@, out@[k].1@) == model[k],
                    decreases entries.len() - i,
                {
                    assert(model[i as int].1 == value_model(*entries@[i as int].1));
                    assert(decreases_to!(value_model(*v) => value_model(*v)->Object_0[i as int].1));
                    let key = entries[i].0.clone();
                    let value = Json::from_value(entries[i].1);
                    out.push((key, value));
                    i += 1;
                }
                let j = Json::Object(out);
                assert(j@->Object_0 =~= model);
                j
            },
        }
    }

    /// Copies a list of `serde_json::Value`s.
    pub fn from_values(values: &Vec<serde_json::Value>) -> (r: Vec<Json>)
        ensures
            r.deep_view() == values_model(values@),
    {
        let mut out: Vec<Json> = Vec::new();
        let mut i: usize = 0;
        while i < values.len()
            invariant
                i <= values.len(),
                out@.len() == i,
                forall|k: int| 0 <= k < i ==> out@[k]@ == value_model(values@[k]),
            decreases values.len() - i,
        {
            out.push(Json::from_value(&values[i]));
            i += 1;
        }
        assert(out.deep_view() =~= values_model(values@));
        out
    }

    /// Parses one JSON document.
    pub fn parse(text: &str) -> (r: Result<Json, MalformedJson>)
        ensures
            match r {
                Ok(j) => parsed_text(text@) == Some(j@),
                Err(_) => parsed_text(text@) is None,
            },
    {
        match parse_value(text) {
            Ok(v) => Ok(Json::from_value(&v)),
            Err(_) => Err(MalformedJson),
        }
    }
}

} // verus!
