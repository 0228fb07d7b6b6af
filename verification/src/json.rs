//! A JSON document as plain values, parsed by `serde_json`, and the lookups
//! the session-log reader makes on it.
use vstd::prelude::*;
use crate::text::{chars_eq, chars_of, string_from, trim, trim_str};

verus! {

/// A JSON number: its value as `i64` and as `u64` where it is an integer in
/// range, and the text `serde_json` writes for it.
pub struct JsonNumber {
    pub int: Option<i64>,
    pub uint: Option<u64>,
    pub text: String,
}

/// A JSON value. Objects keep their members in the order `serde_json`'s map
/// iterates them, each key once.
pub enum JsonValue {
    Null,
    Bool(bool),
    Number(JsonNumber),
    Str(String),
    Array(Vec<JsonValue>),
    Object(Vec<(String, JsonValue)>),
}

#[verifier::external_type_specification]
#[verifier::external_body]
pub struct ExSerdeValue(serde_json::Value);

/// What `serde_json::from_str::<serde_json::Value>` gives for a text, as a
/// `JsonValue`, or `None` where it reports an error.
pub uninterp spec fn json_parse(text: Seq<char>) -> Option<JsonValue>;

/// `serde_json::from_str::<serde_json::Value>`: the result is named by
/// `json_parse`; nothing else of it is stated.
#[verifier::external_body]
pub(crate) fn parse_json(text: &str) -> (r: Option<JsonValue>)
    ensures
        r == json_parse(text@),
{
    serde_json::from_str::<serde_json::Value>(text).ok().map(json_from_serde)
}

/// Moves a `serde_json::Value` into a `JsonValue`, variant for variant.
#[verifier::external_body]
fn json_from_serde(v: serde_json::Value) -> JsonValue {
    match v {
        serde_json::Value::Null => JsonValue::Null,
        serde_json::Value::Bool(b) => JsonValue::Bool(b),
        serde_json::Value::Number(n) => JsonValue::Number(
            JsonNumber { int: n.as_i64(), uint: n.as_u64(), text: n.to_string() },
        ),
        serde_json::Value::String(s) => JsonValue::Str(s),
        serde_json::Value::Array(a) => JsonValue::Array(a.into_iter().map(json_from_serde).collect()),
        serde_json::Value::Object(m) => JsonValue::Object(
            m.into_iter().map(|(k, x)| (k, json_from_serde(x))).collect(),
        ),
    }
}

/// What `serde_json::Value::to_string` writes for a value.
pub uninterp spec fn json_text(v: JsonValue) -> Seq<char>;

/// `serde_json::Value::to_string` (compact JSON text) of a value: named by
/// `json_text`.
#[verifier::external_body]
pub(crate) fn json_to_string(v: &JsonValue) -> (r: String)
    ensures
        r@ == json_text(*v),
{
    json_to_serde(v).to_string()
}

/// Copies a `JsonValue` into a `serde_json::Value`, variant for variant.
#[verifier::external_body]
fn json_to_serde(v: &JsonValue) -> serde_json::Value {
    match v {
        JsonValue::Null => serde_json::Value::Null,
        JsonValue::Bool(b) => serde_json::Value::Bool(*b),
        JsonValue::Number(n) => serde_json::from_str(&n.text).unwrap_or(serde_json::Value::Null),
        JsonValue::Str(s) => serde_json::Value::String(s.clone()),
        JsonValue::Array(a) => serde_json::Value::Array(a.iter().map(json_to_serde).collect()),
        JsonValue::Object(m) => serde_json::Value::Object(
            m.iter().map(|(k, x)| (k.clone(), json_to_serde(x))).collect(),
        ),
    }
}

/// The value of the first member named `key`.
pub open spec fn find_member(members: Seq<(String, JsonValue)>, key: Seq<char>) -> Option<JsonValue>
    decreases members.len(),
{
    if members.len() == 0 {
        None
    } else if members[0].0@ == key {
        Some(members[0].1)
    } else {
        find_member(members.drop_first(), key)
    }
}

/// `Value::get(key)`: the member `key` of an object; nothing for other values.
pub open spec fn jget(v: JsonValue, key: Seq<char>) -> Option<JsonValue> {
    match v {
        JsonValue::Object(m) => find_member(m@, key),
        _ => None,
    }
}

/// `value[key]`: the member, or `null` where there is none.
pub open spec fn jindex(v: JsonValue, key: Seq<char>) -> JsonValue {
    match jget(v, key) {
        Some(x) => x,
        None => JsonValue::Null,
    }
}

/// `Value::as_str`.
pub open spec fn jstr(v: Option<JsonValue>) -> Option<Seq<char>> {
    match v {
        Some(JsonValue::Str(s)) => Some(s@),
        _ => None,
    }
}

/// `Value::as_i64`.
pub open spec fn ji64(v: Option<JsonValue>) -> Option<i64> {
    match v {
        Some(JsonValue::Number(n)) => n.int,
        _ => None,
    }
}

/// `Value::as_u64`.
pub open spec fn ju64(v: Option<JsonValue>) -> Option<u64> {
    match v {
        Some(JsonValue::Number(n)) => n.uint,
        _ => None,
    }
}

/// The text of a number member (what `as_f64` reads).
pub open spec fn jnum_text(v: Option<JsonValue>) -> Option<Seq<char>> {
    match v {
        Some(JsonValue::Number(n)) => Some(n.text@),
        _ => None,
    }
}

/// `get_str`: a string member, trimmed, where it is not empty.
pub open spec fn jget_str(v: JsonValue, key: Seq<char>) -> Option<Seq<char>> {
    match jstr(jget(v, key)) {
        Some(s) => if trim(s).len() > 0 {
            Some(trim(s))
        } else {
            None
        },
        None => None,
    }
}

/// A copy of a string.
pub fn copy_string(s: &String) -> (r: String)
    ensures
        r@ == s@,
{
    s.clone()
}

impl JsonValue {
    /// `Value::get(key)`.
    pub fn get(&self, key: &str) -> (r: Option<&JsonValue>)
        ensures
            r matches Some(x) ==> jget(*self, key@) == Some(*x),
            r is None ==> jget(*self, key@) is None,
    {
        match self {
            JsonValue::Object(members) => {
                let k = chars_of(key);
                let mut i: usize = 0;
                assert(members@.skip(0) == members@);
                while i < members.len()
                    invariant
                        i <= members.len(),
                        k@ == key@,
                        jget(*self, key@) == find_member(members@, key@),
                        find_member(members@, key@) == find_member(members@.skip(i as int), key@),
                    decreases members.len() - i,
                {
                    assert(members@.skip(i as int).drop_first() == members@.skip(i + 1));
                    let name = chars_of(members[i].0.as_str());
                    assert(members@.skip(i as int)[0] == members@[i as int]);
                    if chars_eq(&name, &k) {
                        return Some(&members[i].1);
                    }
                    i = i + 1;
                }
                None
            },
            _ => None,
        }
    }

    /// `value[key]`.
    pub fn index(&self, key: &str) -> (r: &JsonValue)
        ensures
            *r == jindex(*self, key@),
    {
        match self.get(key) {
            Some(x) => x,
            None => &JSON_NULL,
        }
    }

    /// `Value::as_str`, as an owned string.
    pub fn as_string(&self) -> (r: Option<String>)
        ensures
            r matches Some(s) ==> jstr(Some(*self)) == Some(s@),
            r is None ==> jstr(Some(*self)) is None,
    {
        match self {
            JsonValue::Str(s) => Some(copy_string(s)),
            _ => None,
        }
    }

    /// `Value::as_i64`.
    pub fn as_i64(&self) -> (r: Option<i64>)
        ensures
            r == ji64(Some(*self)),
    {
        match self {
            JsonValue::Number(n) => n.int,
            _ => None,
        }
    }

    /// `Value::as_u64`.
    pub fn as_u64(&self) -> (r: Option<u64>)
        ensures
            r == ju64(Some(*self)),
    {
        match self {
            JsonValue::Number(n) => n.uint,
            _ => None,
        }
    }

    /// The text of a number.
    pub fn number_text(&self) -> (r: Option<String>)
        ensures
            r matches Some(s) ==> jnum_text(Some(*self)) == Some(s@),
            r is None ==> jnum_text(Some(*self)) is None,
    {
        match self {
            JsonValue::Number(n) => Some(copy_string(&n.text)),
            _ => None,
        }
    }
}

pub const JSON_NULL: JsonValue = JsonValue::Null;

/// `get_str(value, key)`: the string member `key`, trimmed, where not empty.
pub fn get_str(v: &JsonValue, key: &str) -> (r: Option<String>)
    ensures
        r matches Some(s) ==> jget_str(*v, key@) == Some(s@),
        r is None ==> jget_str(*v, key@) is None,
{
    match v.get(key) {
        Some(JsonValue::Str(s)) => {
            let t = trim_str(s.as_str());
            if t.len() > 0 {
                Some(string_from(&t))
            } else {
                None
            }
        },
        _ => None,
    }
}

/// Member `key` as `i64`.
pub fn get_i64(v: &JsonValue, key: &str) -> (r: Option<i64>)
    ensures
        r == ji64(jget(*v, key@)),
{
    match v.get(key) {
        Some(x) => x.as_i64(),
        None => None,
    }
}

/// Member `key` as `u64`.
pub fn get_u64(v: &JsonValue, key: &str) -> (r: Option<u64>)
    ensures
        r == ju64(jget(*v, key@)),
{
    match v.get(key) {
        Some(x) => x.as_u64(),
        None => None,
    }
}

/// The text of number member `key`.
pub fn get_number_text(v: &JsonValue, key: &str) -> (r: Option<String>)
    ensures
        r matches Some(s) ==> jnum_text(jget(*v, key@)) == Some(s@),
        r is None ==> jnum_text(jget(*v, key@)) is None,
{
    match v.get(key) {
        Some(x) => x.number_text(),
        None => None,
    }
}

/// `token_value(usage, key)`: member `key` as `i64`, else 0.
pub open spec fn token_value_spec(v: JsonValue, key: Seq<char>) -> i64 {
    match ji64(jget(v, key)) {
        Some(n) => n,
        None => 0,
    }
}

pub fn token_value(usage: &JsonValue, key: &str) -> (r: i64)
    ensures
        r == token_value_spec(*usage, key@),
{
    match get_i64(usage, key) {
        Some(n) => n,
        None => 0,
    }
}

} // verus!
