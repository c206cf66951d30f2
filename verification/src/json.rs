//! A JSON value the library can reason about, read from and written back to
//! text through `serde_json`.

use vstd::prelude::*;
use crate::text::{str_eq, parse_u64, unsigned_value};

verus! {

/// A JSON value. Numbers keep the text `serde_json` writes for them; the
/// members of an object keep the order in which `serde_json` lists them.
#[derive(Debug)]
pub enum JsonValue {
    Null,
    Bool(bool),
    Number(String),
    Str(String),
    Array(Vec<JsonValue>),
    Object(Vec<(String, JsonValue)>),
}

#[verifier::external_type_specification]
#[verifier::external_body]
pub struct ExJsonValue(serde_json::Value);

/// The member named `key` among `members`, searching from index `k`.
pub open spec fn member(members: Seq<(String, JsonValue)>, key: Seq<char>, k: int) -> Option<JsonValue>
    decreases members.len() - k,
{
    if k < 0 || k >= members.len() {
        None
    } else if members[k].0@ == key {
        Some(members[k].1)
    } else {
        member(members, key, k + 1)
    }
}

/// `Value::get` with a string key: the member `key` of an object; nothing
/// for any other value.
pub open spec fn json_get(v: JsonValue, key: Seq<char>) -> Option<JsonValue> {
    match v {
        JsonValue::Object(members) => member(members@, key, 0),
        _ => None,
    }
}

/// `Value::as_str`.
pub open spec fn json_str(v: JsonValue) -> Option<Seq<char>> {
    match v {
        JsonValue::Str(s) => Some(s@),
        _ => None,
    }
}

/// `Value::as_bool`.
pub open spec fn json_bool(v: JsonValue) -> Option<bool> {
    match v {
        JsonValue::Bool(b) => Some(b),
        _ => None,
    }
}

/// `Value::as_u64`: a number written as plain decimal digits that fit.
pub open spec fn json_u64(v: JsonValue) -> Option<nat> {
    match v {
        JsonValue::Number(t) => if t@.len() > 0 && t@[0] != '+' {
            unsigned_value(t@, u64::MAX as nat)
        } else {
            None
        },
        _ => None,
    }
}

/// The string member `key` of `v`, when `v` has one.
pub open spec fn json_str_member(v: JsonValue, key: Seq<char>) -> Option<Seq<char>> {
    match json_get(v, key) {
        Some(m) => json_str(m),
        None => None,
    }
}

impl JsonValue {
    /// Reads JSON text; none when `text` is not JSON.
    pub fn parse(text: &str) -> (r: Option<JsonValue>)
        ensures
            r == parsed_json(text@),
    {
        parse_json(text)
    }

    /// The member `key` of an object.
    pub fn get(&self, key: &str) -> (r: Option<&JsonValue>)
        ensures
            match r {
                Some(x) => json_get(*self, key@) == Some(*x),
                None => json_get(*self, key@) is None,
            },
    {
        match self {
            JsonValue::Object(members) => object_member(members, key),
            _ => None,
        }
    }

    /// The text of a string value.
    pub fn as_str(&self) -> (r: Option<&String>)
        ensures
            match r {
                Some(s) => json_str(*self) == Some(s@),
                None => json_str(*self) is None,
            },
    {
        match self {
            JsonValue::Str(s) => Some(s),
            _ => None,
        }
    }

    /// The elements of an array value.
    pub fn as_array(&self) -> (r: Option<&Vec<JsonValue>>)
        ensures
            match r {
                Some(a) => *self == JsonValue::Array(*a),
                None => !(*self is Array),
            },
    {
        match self {
            JsonValue::Array(a) => Some(a),
            _ => None,
        }
    }

    /// The members of an object value.
    pub fn as_object(&self) -> (r: Option<&Vec<(String, JsonValue)>>)
        ensures
            match r {
                Some(m) => *self == JsonValue::Object(*m),
                None => !(*self is Object),
            },
    {
        match self {
            JsonValue::Object(m) => Some(m),
            _ => None,
        }
    }

    /// The value of a boolean.
    pub fn as_bool(&self) -> (r: Option<bool>)
        ensures
            r == json_bool(*self),
    {
        match self {
            JsonValue::Bool(b) => Some(*b),
            _ => None,
        }
    }

    /// The value of a number written as plain decimal digits that fit a `u64`.
    pub fn as_u64(&self) -> (r: Option<u64>)
        ensures
            match r {
                Some(n) => json_u64(*self) == Some(n as nat),
                None => json_u64(*self) is None,
            },
    {
        match self {
            JsonValue::Number(t) => {
                let s = t.as_str();
                if s.is_empty() || s.get_char(0) == '+' {
                    None
                } else {
                    parse_u64(s)
                }
            },
            _ => None,
        }
    }
}

/// The member named `key` among `members`.
pub fn object_member<'a>(members: &'a Vec<(String, JsonValue)>, key: &str) -> (r: Option<&'a JsonValue>)
    ensures
        match r {
            Some(x) => member(members@, key@, 0) == Some(*x),
            None => member(members@, key@, 0) is None,
        },
{
    let mut k: usize = 0;
    while k < members.len()
        invariant
            k <= members.len(),
            member(members@, key@, 0) == member(members@, key@, k as int),
        decreases members.len() - k,
    {
        if str_eq(members[k].0.as_str(), key) {
            return Some(&members[k].1);
        }
        k = k + 1;
    }
    None
}

/// The string member `key` of `v`.
pub fn str_member(v: &JsonValue, key: &str) -> (r: Option<String>)
    ensures
        match r {
            Some(s) => json_str_member(*v, key@) == Some(s@),
            None => json_str_member(*v, key@) is None,
        },
{
    match v.get(key) {
        Some(m) => match m.as_str() {
            Some(s) => Some(s.clone()),
            None => None,
        },
        None => None,
    }
}

/// The value `serde_json::from_str` reads from `text`, when `text` is JSON.
pub uninterp spec fn parsed_json(text: Seq<char>) -> Option<JsonValue>;

/// The text `serde_json` writes for `v` in its compact form (`Display`).
pub uninterp spec fn compact_json(v: JsonValue) -> Seq<char>;

/// The text `serde_json::to_string_pretty` writes for `v`.
pub uninterp spec fn pretty_json(v: JsonValue) -> Seq<char>;

/// Turns a `serde_json::Value` into a `JsonValue`, variant for variant;
/// numbers become the text that `serde_json` writes for them. Nothing is
/// stated of the result.
#[verifier::external_body]
fn from_serde(v: serde_json::Value) -> JsonValue {
    match v {
        serde_json::Value::Null => JsonValue::Null,
        serde_json::Value::Bool(b) => JsonValue::Bool(b),
        serde_json::Value::Number(n) => JsonValue::Number(n.to_string()),
        serde_json::Value::String(s) => JsonValue::Str(s),
        serde_json::Value::Array(a) => JsonValue::Array(a.into_iter().map(from_serde).collect()),
        serde_json::Value::Object(m) => JsonValue::Object(m.into_iter().map(|(k, x)| (k, from_serde(x))).collect()),
    }
}

/// Turns a `JsonValue` back into a `serde_json::Value`, variant for
/// variant; number text goes through `Number::from_str`, and text it
/// refuses becomes a string. Nothing is stated of the result.
#[verifier::external_body]
fn to_serde(v: &JsonValue) -> serde_json::Value {
    match v {
        JsonValue::Null => serde_json::Value::Null,
        JsonValue::Bool(b) => serde_json::Value::Bool(*b),
        JsonValue::Number(t) => match t.parse::<serde_json::Number>() {
            Ok(n) => serde_json::Value::Number(n),
            Err(_) => serde_json::Value::String(t.clone()),
        },
        JsonValue::Str(s) => serde_json::Value::String(s.clone()),
        JsonValue::Array(a) => serde_json::Value::Array(a.iter().map(to_serde).collect()),
        JsonValue::Object(m) => serde_json::Value::Object(m.iter().map(|(k, x)| (k.clone(), to_serde(x))).collect()),
    }
}

/// `serde_json::from_str::<Value>`: the value `text` holds, or none when it
/// is not JSON. The result depends on `text` alone and is named, not
/// spelled out.
#[verifier::external_body]
pub(crate) fn parse_json(text: &str) -> (r: Option<JsonValue>)
    ensures
        r == parsed_json(text@),
{
    serde_json::from_str::<serde_json::Value>(text).ok().map(from_serde)
}

/// `Value`'s `Display` (`to_string`): the compact JSON text of `v`, named,
/// not spelled out.
#[verifier::external_body]
pub(crate) fn json_to_string(v: &JsonValue) -> (r: String)
    ensures
        r@ == compact_json(*v),
{
    to_serde(v).to_string()
}

/// `serde_json::to_string_pretty` on a `serde_json::Value`: the indented
/// JSON text of `v`, named, not spelled out. The source fails only when a
/// `Serialize` impl fails or a map has a key that is not a string; a
/// `Value`'s keys are strings, its serialization never fails, and the
/// output goes to a `Vec`, so the error arm (an empty string) is never
/// taken.
#[verifier::external_body]
pub(crate) fn json_to_string_pretty(v: &JsonValue) -> (r: String)
    ensures
        r@ == pretty_json(*v),
{
    serde_json::to_string_pretty(&to_serde(v)).unwrap_or_default()
}

} // verus!
