//! JSON values as the parsers read them, and the calls into serde_json that
//! produce them from log text.

use vstd::prelude::*;
use crate::text::str_eq;

verus! {

/// A JSON number as the parsers read it: its value as a `u64` and as an
/// `i64`, where it has one (serde_json's `Number::as_u64` / `as_i64`).
/// Floating-point numbers have neither.
#[derive(Debug)]
pub struct JsonNumber {
    pub unsigned: Option<u64>,
    pub signed: Option<i64>,
}

/// A parsed JSON value. An object keeps its entries in the order serde_json
/// hands them out; serde_json's map holds each key once.
#[derive(Debug)]
pub enum JsonValue {
    Null,
    Bool(bool),
    Number(JsonNumber),
    Str(String),
    Array(Vec<JsonValue>),
    Object(Vec<(String, JsonValue)>),
}

/// The value of the first entry at or after `i` whose key is `key`.
pub open spec fn entry_from(es: Seq<(String, JsonValue)>, key: Seq<char>, i: int) -> Option<
    JsonValue,
>
    decreases es.len() - i,
{
    if i < 0 || i >= es.len() {
        None
    } else if es[i].0@ == key {
        Some(es[i].1)
    } else {
        entry_from(es, key, i + 1)
    }
}

impl JsonValue {
    /// `Value::get(key)`: the member `key` of an object; `None` for anything else.
    pub open spec fn spec_get(self, key: Seq<char>) -> Option<JsonValue> {
        match self {
            JsonValue::Object(es) => entry_from(es@, key, 0),
            _ => None,
        }
    }

    /// `Value::as_str`.
    pub open spec fn spec_as_str(self) -> Option<Seq<char>> {
        match self {
            JsonValue::Str(s) => Some(s@),
            _ => None,
        }
    }

    /// `Value::as_u64`.
    pub open spec fn spec_as_u64(self) -> Option<u64> {
        match self {
            JsonValue::Number(n) => n.unsigned,
            _ => None,
        }
    }

    /// `Value::as_i64`.
    pub open spec fn spec_as_i64(self) -> Option<i64> {
        match self {
            JsonValue::Number(n) => n.signed,
            _ => None,
        }
    }

    /// `Value::as_array`.
    pub open spec fn spec_as_array(self) -> Option<Seq<JsonValue>> {
        match self {
            JsonValue::Array(a) => Some(a@),
            _ => None,
        }
    }

    pub fn get(&self, key: &str) -> (r: Option<&JsonValue>)
        ensures
            deref_opt(r) == self.spec_get(key@),
    {
        match self {
            JsonValue::Object(es) => {
                let mut i: usize = 0;
                while i < es.len()
                    invariant
                        i <= es.len(),
                        self.spec_get(key@) == entry_from(es@, key@, 0),
                        entry_from(es@, key@, 0) == entry_from(es@, key@, i as int),
                    decreases es.len() - i,
                {
                    let entry = &es[i];
                    if str_eq(entry.0.as_str(), key) {
                        assert(es@[i as int].0@ == key@);
                        return Some(&entry.1);
                    }
                    i = i + 1;
                }
                None
            },
            _ => None,
        }
    }

    pub fn as_str(&self) -> (r: Option<&str>)
        ensures
            match r {
                Some(s) => self.spec_as_str() == Some(s@),
                None => self.spec_as_str() is None,
            },
    {
        match self {
            JsonValue::Str(s) => Some(s.as_str()),
            _ => None,
        }
    }

    pub fn as_u64(&self) -> (r: Option<u64>)
        ensures
            r == self.spec_as_u64(),
    {
        match self {
            JsonValue::Number(n) => n.unsigned,
            _ => None,
        }
    }

    pub fn as_i64(&self) -> (r: Option<i64>)
        ensures
            r == self.spec_as_i64(),
    {
        match self {
            JsonValue::Number(n) => n.signed,
            _ => None,
        }
    }

    pub fn as_array(&self) -> (r: Option<&Vec<JsonValue>>)
        ensures
            match r {
                Some(a) => self.spec_as_array() == Some(a@),
                None => self.spec_as_array() is None,
            },
    {
        match self {
            JsonValue::Array(a) => Some(a),
            _ => None,
        }
    }
}

impl JsonValue {
    /// `self.get(key).and_then(|v| v.as_str())`.
    pub fn get_str(&self, key: &str) -> (r: Option<&str>)
        ensures
            str_opt_view(r) == str_of(self.spec_get(key@)),
    {
        match self.get(key) {
            Some(v) => v.as_str(),
            None => None,
        }
    }

    /// `self.get(key).and_then(|v| v.as_u64())`.
    pub fn get_u64(&self, key: &str) -> (r: Option<u64>)
        ensures
            r == u64_of(self.spec_get(key@)),
    {
        match self.get(key) {
            Some(v) => v.as_u64(),
            None => None,
        }
    }

    /// `self.get(key).and_then(|v| v.as_array())`.
    pub fn get_array(&self, key: &str) -> (r: Option<&Vec<JsonValue>>)
        ensures
            vec_opt_view(r) == array_of(self.spec_get(key@)),
    {
        match self.get(key) {
            Some(v) => v.as_array(),
            None => None,
        }
    }
}

/// An optional borrowed string as an optional sequence.
pub open spec fn str_opt_view(o: Option<&str>) -> Option<Seq<char>> {
    match o {
        Some(s) => Some(s@),
        None => None,
    }
}

/// An optional borrowed list as an optional sequence.
pub open spec fn vec_opt_view(o: Option<&Vec<JsonValue>>) -> Option<Seq<JsonValue>> {
    match o {
        Some(a) => Some(a@),
        None => None,
    }
}

/// An optional borrowed value as an optional value.
pub open spec fn deref_opt(o: Option<&JsonValue>) -> Option<JsonValue> {
    match o {
        Some(v) => Some(*v),
        None => None,
    }
}

/// `o.and_then(|v| v.get(key))`.
pub open spec fn field(o: Option<JsonValue>, key: Seq<char>) -> Option<JsonValue> {
    match o {
        Some(v) => v.spec_get(key),
        None => None,
    }
}

/// `o.and_then(|v| v.as_str())`.
pub open spec fn str_of(o: Option<JsonValue>) -> Option<Seq<char>> {
    match o {
        Some(v) => v.spec_as_str(),
        None => None,
    }
}

/// `o.and_then(|v| v.as_u64())`.
pub open spec fn u64_of(o: Option<JsonValue>) -> Option<u64> {
    match o {
        Some(v) => v.spec_as_u64(),
        None => None,
    }
}

/// `o.and_then(|v| v.as_i64())`.
pub open spec fn i64_of(o: Option<JsonValue>) -> Option<i64> {
    match o {
        Some(v) => v.spec_as_i64(),
        None => None,
    }
}

/// `o.and_then(|v| v.as_array())`.
pub open spec fn array_of(o: Option<JsonValue>) -> Option<Seq<JsonValue>> {
    match o {
        Some(v) => v.spec_as_array(),
        None => None,
    }
}

/// The first element of an optional array (`.and_then(|a| a.first())`).
pub open spec fn first_of(o: Option<Seq<JsonValue>>) -> Option<JsonValue> {
    match o {
        Some(a) => if a.len() > 0 {
            Some(a[0])
        } else {
            None
        },
        None => None,
    }
}

/// `a.and_then(|a| a.first()).and_then(|v| v.as_u64())`.
pub fn first_u64(a: Option<&Vec<JsonValue>>) -> (r: Option<u64>)
    ensures
        r == u64_of(first_of(vec_opt_view(a))),
{
    match a {
        Some(a) => if a.len() > 0 {
            a[0].as_u64()
        } else {
            None
        },
        None => None,
    }
}

/// `a.and_then(|a| a.first()).and_then(|v| v.as_i64())`.
pub fn first_i64(a: Option<&Vec<JsonValue>>) -> (r: Option<i64>)
    ensures
        r == i64_of(first_of(vec_opt_view(a))),
{
    match a {
        Some(a) => if a.len() > 0 {
            a[0].as_i64()
        } else {
            None
        },
        None => None,
    }
}

/// What `serde_json::from_str::<serde_json::Value>` makes of `text`: the one
/// JSON document it holds, or `None` where serde_json reports an error.
pub uninterp spec fn json_document(text: Seq<char>) -> Option<JsonValue>;

/// What iterating `serde_json::Deserializer::from_str(text).into_iter::<Value>()`
/// yields before its first error: the JSON documents written back to back
/// at the start of `text`.
pub uninterp spec fn json_stream(text: Seq<char>) -> Seq<JsonValue>;

/// The declared outside type `serde_json::Value`.
#[verifier::external_type_specification]
#[verifier::external_body]
pub struct ExJsonValue(serde_json::Value);

/// Moves a `serde_json::Value` into a `JsonValue`, variant for variant;
/// numbers keep what `Number::as_u64` and `Number::as_i64` give.
#[verifier::external_body]
fn lift_value(v: serde_json::Value) -> JsonValue {
    match v {
        serde_json::Value::Null => JsonValue::Null,
        serde_json::Value::Bool(b) => JsonValue::Bool(b),
        serde_json::Value::Number(n) => JsonValue::Number(
            JsonNumber { unsigned: n.as_u64(), signed: n.as_i64() },
        ),
        serde_json::Value::String(s) => JsonValue::Str(s),
        serde_json::Value::Array(a) => JsonValue::Array(a.into_iter().map(lift_value).collect()),
        serde_json::Value::Object(m) => JsonValue::Object(
            m.into_iter().map(|(k, x)| (k, lift_value(x))).collect(),
        ),
    }
}

/// Parses `text` with `serde_json::from_str::<serde_json::Value>`.
/// Claims only that the result is `json_document(text)`: a function of the
/// text alone.
#[verifier::external_body]
pub(crate) fn parse_document(text: &str) -> (r: Option<JsonValue>)
    ensures
        r == json_document(text@),
{
    serde_json::from_str::<serde_json::Value>(text).ok().map(lift_value)
}

/// Reads the JSON documents at the start of `text` with serde_json's
/// `StreamDeserializer`, stopping at its first error.
/// Claims only that the result is `json_stream(text)`.
#[verifier::external_body]
pub(crate) fn parse_stream(text: &str) -> (r: Vec<JsonValue>)
    ensures
        r@ == json_stream(text@),
{
    serde_json::Deserializer::from_str(text)
        .into_iter::<serde_json::Value>()
        .map_while(|item| item.ok())
        .map(lift_value)
        .collect()
}

} // verus!
