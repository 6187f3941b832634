//! JSON documents, as far as the protocols read and write them.
//!
//! Parsing and writing is done by `serde_json`. What it reads is held in a type of plain
//! values.
use serde_json::Value;
use vstd::prelude::*;

use crate::text;

verus! {

/// A JSON value.
#[derive(Debug)]
pub enum JsonValue {
    Null,
    Bool(bool),
    /// A number that is an `i64`.
    Signed(i64),
    /// A number that is no `i64` but a `u64`.
    Unsigned(u64),
    /// Any other number, in the notation of Rust's floating-point numbers.
    Real(String),
    Text(String),
    Array(Vec<JsonValue>),
    /// The members of an object, each with its name.
    Object(Vec<(String, JsonValue)>),
}

/// What a JSON value holds.
pub enum Json {
    Null,
    Bool(bool),
    Signed(i64),
    Unsigned(u64),
    Real(Seq<char>),
    Text(Seq<char>),
    Array(Seq<Json>),
    Object(Seq<(Seq<char>, Json)>),
}

/// What a JSON value holds.
pub open spec fn json_of(value: JsonValue) -> Json
    decreases value,
{
    match value {
        JsonValue::Null => Json::Null,
        JsonValue::Bool(b) => Json::Bool(b),
        JsonValue::Signed(n) => Json::Signed(n),
        JsonValue::Unsigned(n) => Json::Unsigned(n),
        JsonValue::Real(s) => Json::Real(s@),
        JsonValue::Text(s) => Json::Text(s@),
        JsonValue::Array(items) => Json::Array(
            Seq::new(
                items@.len(),
                |i: int|
                    if 0 <= i < items@.len() {
                        json_of(items@[i])
                    } else {
                        Json::Null
                    },
            ),
        ),
        JsonValue::Object(members) => Json::Object(
            Seq::new(
                members@.len(),
                |i: int|
                    if 0 <= i < members@.len() {
                        (members@[i].0@, json_of(members@[i].1))
                    } else {
                        (Seq::<char>::empty(), Json::Null)
                    },
            ),
        ),
    }
}

impl View for JsonValue {
    type V = Json;

    open spec fn view(&self) -> Json {
        json_of(*self)
    }
}

/// The value of the first member with a name.
pub open spec fn member(members: Seq<(Seq<char>, Json)>, name: Seq<char>) -> Option<Json>
    decreases members.len(),
{
    if members.len() == 0 {
        None
    } else if members[0].0 == name {
        Some(members[0].1)
    } else {
        member(members.skip(1), name)
    }
}

impl Json {
    /// The member of an object with a name; no other value has members.
    pub open spec fn get(self, name: Seq<char>) -> Option<Json> {
        match self {
            Json::Object(members) => member(members, name),
            _ => None,
        }
    }

    /// The text of a value that is a text.
    pub open spec fn as_text(self) -> Option<Seq<char>> {
        match self {
            Json::Text(s) => Some(s),
            _ => None,
        }
    }

    /// The items of a value that is an array.
    pub open spec fn as_array(self) -> Option<Seq<Json>> {
        match self {
            Json::Array(items) => Some(items),
            _ => None,
        }
    }
}

impl JsonValue {
    /// The member of an object with a name; no other value has members.
    pub fn get(&self, name: &str) -> (found: Option<&JsonValue>)
        ensures
            match found {
                Some(value) => self@.get(name@) == Some(value@),
                None => self@.get(name@) is None,
            },
    {
        match self {
            JsonValue::Object(members) => {
                let ghost all = self@->Object_0;
                assert(all.skip(0) =~= all);
                for i in 0..members.len()
                    invariant
                        all == self@->Object_0,
                        *self == JsonValue::Object(*members),
                        member(all, name@) == member(all.skip(i as int), name@),
                {
                    assert(all[i as int] == (members@[i as int].0@, members@[i as int].1@));
                    if text::same_text(members[i].0.as_str(), name) {
                        return Some(&members[i].1);
                    }
                    assert(all.skip(i as int).skip(1) =~= all.skip(i + 1));
                }
                None
            },
            _ => None,
        }
    }

    /// The text of a value that is a text.
    pub fn as_text(&self) -> (found: Option<&str>)
        ensures
            match found {
                Some(s) => self@.as_text() == Some(s@),
                None => self@.as_text() is None,
            },
    {
        match self {
            JsonValue::Text(s) => Some(s.as_str()),
            _ => None,
        }
    }
}

// ---------------------------------------------------------------------------------------
// Reading
// ---------------------------------------------------------------------------------------
/// What `serde_json` reads from bytes: the value, or the message of its error.
pub uninterp spec fn json_parsed(bytes: Seq<u8>) -> Result<Json, Seq<char>>;

/// That bytes were read, as a value.
pub open spec fn parsed_as(json: Json) -> Result<Json, Seq<char>> {
    Ok(json)
}

/// The type `serde_json::Value`, of which nothing is known here.
#[verifier::external_type_specification]
#[verifier::external_body]
pub struct ExSerdeValue(serde_json::Value);

/// A `serde_json::Value` as a value of this crate, variant by variant. A number goes by the
/// first of `as_i64`, `as_u64` and `as_f64` that yields it.
#[verifier::external_body]
fn converted(value: Value) -> (json: JsonValue) {
    match value {
        Value::Null => JsonValue::Null,
        Value::Bool(b) => JsonValue::Bool(b),
        Value::Number(n) => match (n.as_i64(), n.as_u64(), n.as_f64()) {
            (Some(i), _, _) => JsonValue::Signed(i),
            (None, Some(u), _) => JsonValue::Unsigned(u),
            (None, None, f) => JsonValue::Real(f.unwrap_or_default().to_string()),
        },
        Value::String(s) => JsonValue::Text(s),
        Value::Array(a) => JsonValue::Array(a.into_iter().map(converted).collect()),
        Value::Object(o) => JsonValue::Object(
            o.into_iter().map(|(k, v)| (k, converted(v))).collect(),
        ),
    }
}

/// `serde_json::from_slice` into a `serde_json::Value`. What it makes of the bytes is only
/// named.
#[verifier::external_body]
pub(crate) fn parse_json(bytes: &[u8]) -> (parsed: Result<JsonValue, String>)
    ensures
        match parsed {
            Ok(value) => json_parsed(bytes@) == Ok::<Json, Seq<char>>(value@),
            Err(message) => json_parsed(bytes@) == Err::<Json, Seq<char>>(message@),
        },
{
    match serde_json::from_slice::<Value>(bytes) {
        Ok(value) => Ok(converted(value)),
        Err(error) => Err(error.to_string()),
    }
}

// ---------------------------------------------------------------------------------------
// Writing
// ---------------------------------------------------------------------------------------
/// The names and values of an object whose members are texts or null.
pub open spec fn members_of(members: Seq<(String, Option<String>)>) -> Seq<
    (Seq<char>, Option<Seq<char>>),
> {
    members.map_values(|m: (String, Option<String>)| (m.0@, text::optional_text(m.1)))
}

/// The names and values of the objects of a list.
pub open spec fn rows_of(rows: Seq<Vec<(String, Option<String>)>>) -> Seq<
    Seq<(Seq<char>, Option<Seq<char>>)>,
> {
    rows.map_values(|row: Vec<(String, Option<String>)>| members_of(row@))
}

/// An object whose members are texts or null.
pub open spec fn object_of(members: Seq<(Seq<char>, Option<Seq<char>>)>) -> Json {
    Json::Object(
        members.map_values(
            |m: (Seq<char>, Option<Seq<char>>)|
                (
                    m.0,
                    match m.1 {
                        Some(s) => Json::Text(s),
                        None => Json::Null,
                    },
                ),
        ),
    )
}

/// A list of objects whose members are texts or null.
pub open spec fn list_of(rows: Seq<Seq<(Seq<char>, Option<Seq<char>>)>>) -> Json {
    Json::Array(rows.map_values(|row: Seq<(Seq<char>, Option<Seq<char>>)>| object_of(row)))
}

/// Whether no two members have the same name.
pub open spec fn distinct_names(members: Seq<(Seq<char>, Option<Seq<char>>)>) -> bool {
    forall|i: int, j: int|
        0 <= i < j < members.len() ==> (#[trigger] members[i]).0 != (#[trigger] members[j]).0
}

/// The bytes that `serde_json` writes for an object whose members are texts or null.
pub uninterp spec fn object_written(members: Seq<(Seq<char>, Option<Seq<char>>)>) -> Seq<u8>;

/// The bytes that `serde_json` writes for a list of such objects.
pub uninterp spec fn list_written(rows: Seq<Seq<(Seq<char>, Option<Seq<char>>)>>) -> Seq<u8>;

/// `serde_json::to_vec` on a `serde_json::Map`, which keeps the order of its members. Which
/// bytes it writes is only named; reading them gives the object back. It cannot fail: the
/// names are strings, and so are the values where they are not null.
#[verifier::external_body]
pub(crate) fn write_object(members: &Vec<(String, Option<String>)>) -> (bytes: Vec<u8>)
    requires
        distinct_names(members_of(members@)),
    ensures
        bytes@ == object_written(members_of(members@)),
        json_parsed(bytes@) == parsed_as(object_of(members_of(members@))),
{
    let object = members.iter().map(|(k, v)| (k.clone(), Value::from(v.clone())));
    serde_json::to_vec(&object.collect::<serde_json::Map<_, _>>()).unwrap_or_default()
}

/// `serde_json::to_vec` on a list of `serde_json::Map`s, which keep the order of their
/// members. Which bytes it writes is only named; reading them gives the list back. It cannot
/// fail, as for a single object.
#[verifier::external_body]
pub(crate) fn write_list(rows: &Vec<Vec<(String, Option<String>)>>) -> (bytes: Vec<u8>)
    requires
        forall|i: int| 0 <= i < rows@.len() ==> distinct_names(#[trigger] members_of(rows@[i]@)),
    ensures
        bytes@ == list_written(rows_of(rows@)),
        json_parsed(bytes@) == parsed_as(list_of(rows_of(rows@))),
{
    let list = rows.iter().map(|row| row.iter().map(|(k, v)| (k.clone(), v.clone().into())));
    let objects = list.map(|object| object.collect::<serde_json::Map<_, Value>>());
    serde_json::to_vec(&objects.collect::<Vec<_>>()).unwrap_or_default()
}

} // verus!
