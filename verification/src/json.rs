//! JSON documents as the event bus carries them: a tree of plain values that
//! the parsers of the bot read field by field.

use vstd::prelude::*;

use crate::text::same_text;

verus! {

#[verifier::external_type_specification]
#[verifier::external_body]
pub struct ExJsonValue(serde_json::Value);

/// What the bot reads of a JSON number: its value as an unsigned and as a
/// signed 64-bit integer, where it is one.
pub struct JsonNumber {
    pub unsigned: Option<u64>,
    pub signed: Option<i64>,
}

/// A JSON value.
pub enum Json {
    Null,
    Bool(bool),
    Number(JsonNumber),
    Str(String),
    Array(Vec<Json>),
    Object(Vec<(String, Json)>),
}

/// The document that serde_json reads in `text`, if `text` is JSON.
pub uninterp spec fn json_document(text: Seq<char>) -> Option<Json>;

#[verifier::external_body]
fn json_from_value(v: serde_json::Value) -> Json {
    match v {
        serde_json::Value::Null => Json::Null,
        serde_json::Value::Bool(b) => Json::Bool(b),
        serde_json::Value::Number(n) => Json::Number(JsonNumber { unsigned: n.as_u64(), signed: n.as_i64() }),
        serde_json::Value::String(s) => Json::Str(s),
        serde_json::Value::Array(a) => Json::Array(a.into_iter().map(json_from_value).collect()),
        serde_json::Value::Object(o) => Json::Object(o.into_iter().map(|(k, x)| (k, json_from_value(x))).collect()),
    }
}

/// Reads a JSON document (`serde_json::from_str::<serde_json::Value>`, its
/// error dropped); the value tree is carried over variant for variant.
/// Claimed: the result is a function of the text alone.
#[verifier::external_body]
pub(crate) fn parse_json(text: &str) -> (r: Option<Json>)
    ensures
        r == json_document(text@),
{
    serde_json::from_str::<serde_json::Value>(text).ok().map(json_from_value)
}

/// Value of the first member named `key`.
pub open spec fn member(entries: Seq<(String, Json)>, key: Seq<char>) -> Option<Json>
    decreases entries.len(),
{
    if entries.len() == 0 {
        None
    } else if entries[0].0@ == key {
        Some(entries[0].1)
    } else {
        member(entries.drop_first(), key)
    }
}

/// Member `key` of an object; nothing for any other value
/// (`serde_json::Value::get` with a text).
pub open spec fn json_get(j: Json, key: Seq<char>) -> Option<Json> {
    match j {
        Json::Object(e) => member(e@, key),
        _ => None,
    }
}

/// The text of a string value (`Value::as_str`).
pub open spec fn json_str(j: Json) -> Option<Seq<char>> {
    match j {
        Json::Str(s) => Some(s@),
        _ => None,
    }
}

/// A number as `u64` (`Value::as_u64`).
pub open spec fn json_u64(j: Json) -> Option<u64> {
    match j {
        Json::Number(n) => n.unsigned,
        _ => None,
    }
}

/// A number as `i64` (`Value::as_i64`).
pub open spec fn json_i64(j: Json) -> Option<i64> {
    match j {
        Json::Number(n) => n.signed,
        _ => None,
    }
}

/// A boolean (`Value::as_bool`).
pub open spec fn json_bool(j: Json) -> Option<bool> {
    match j {
        Json::Bool(b) => Some(b),
        _ => None,
    }
}

/// Member `key` of `j`, read as a text.
pub open spec fn str_field(j: Json, key: Seq<char>) -> Option<Seq<char>> {
    match json_get(j, key) {
        Some(v) => json_str(v),
        None => None,
    }
}

/// Member `key` of `j`, read as a `u64`.
pub open spec fn u64_field(j: Json, key: Seq<char>) -> Option<u64> {
    match json_get(j, key) {
        Some(v) => json_u64(v),
        None => None,
    }
}

/// Member `key` of `j`, read as an `i64`.
pub open spec fn i64_field(j: Json, key: Seq<char>) -> Option<i64> {
    match json_get(j, key) {
        Some(v) => json_i64(v),
        None => None,
    }
}

/// Member `key` of `j`, read as a boolean.
pub open spec fn bool_field(j: Json, key: Seq<char>) -> Option<bool> {
    match json_get(j, key) {
        Some(v) => json_bool(v),
        None => None,
    }
}

proof fn lemma_member_skip(entries: Seq<(String, Json)>, key: Seq<char>, i: int)
    requires
        0 <= i < entries.len(),
        forall|j: int| 0 <= j < i ==> entries[j].0@ != key,
    ensures
        member(entries, key) == member(entries.skip(i), key),
    decreases i,
{
    if i > 0 {
        assert(entries.drop_first()[i - 1] == entries[i]);
        assert forall|j: int| 0 <= j < i - 1 implies entries.drop_first()[j].0@ != key by {
            assert(entries.drop_first()[j] == entries[j + 1]);
        }
        lemma_member_skip(entries.drop_first(), key, i - 1);
        assert(entries.drop_first().skip(i - 1) =~= entries.skip(i));
    } else {
        assert(entries.skip(0) =~= entries);
    }
}

proof fn lemma_member_none(entries: Seq<(String, Json)>, key: Seq<char>)
    requires
        forall|j: int| 0 <= j < entries.len() ==> entries[j].0@ != key,
    ensures
        member(entries, key) is None,
    decreases entries.len(),
{
    if entries.len() > 0 {
        assert forall|j: int| 0 <= j < entries.len() - 1 implies entries.drop_first()[j].0@ != key by {
            assert(entries.drop_first()[j] == entries[j + 1]);
        }
        lemma_member_none(entries.drop_first(), key);
    }
}

fn find_member<'a>(entries: &'a Vec<(String, Json)>, key: &str) -> (r: Option<&'a Json>)
    ensures
        r matches Some(v) ==> member(entries@, key@) == Some(*v),
        r is None ==> member(entries@, key@) is None,
{
    let mut i: usize = 0;
    while i < entries.len()
        invariant
            i <= entries@.len(),
            forall|j: int| 0 <= j < i ==> entries@[j].0@ != key@,
        decreases entries@.len() - i,
    {
        if same_text(entries[i].0.as_str(), key) {
            proof {
                lemma_member_skip(entries@, key@, i as int);
                assert(entries@.skip(i as int)[0] == entries@[i as int]);
            }
            return Some(&entries[i].1);
        }
        i = i + 1;
    }
    proof {
        lemma_member_none(entries@, key@);
    }
    None
}

impl Json {
    /// Member `key` of an object (`serde_json::Value::get`).
    pub fn get(&self, key: &str) -> (r: Option<&Json>)
        ensures
            r matches Some(v) ==> json_get(*self, key@) == Some(*v),
            r is None ==> json_get(*self, key@) is None,
    {
        match self {
            Json::Object(entries) => find_member(entries, key),
            _ => None,
        }
    }

    /// The text of a string value (`Value::as_str`).
    pub fn as_str(&self) -> (r: Option<&String>)
        ensures
            r matches Some(s) ==> json_str(*self) == Some(s@),
            r is None ==> json_str(*self) is None,
    {
        match self {
            Json::Str(s) => Some(s),
            _ => None,
        }
    }

    /// A number as `u64` (`Value::as_u64`).
    pub fn as_u64(&self) -> (r: Option<u64>)
        ensures
            r == json_u64(*self),
    {
        match self {
            Json::Number(n) => n.unsigned,
            _ => None,
        }
    }

    /// A number as `i64` (`Value::as_i64`).
    pub fn as_i64(&self) -> (r: Option<i64>)
        ensures
            r == json_i64(*self),
    {
        match self {
            Json::Number(n) => n.signed,
            _ => None,
        }
    }

    /// A boolean (`Value::as_bool`).
    pub fn as_bool(&self) -> (r: Option<bool>)
        ensures
            r == json_bool(*self),
    {
        match self {
            Json::Bool(b) => Some(*b),
            _ => None,
        }
    }

    /// Member `key`, read as a text.
    pub fn str_field(&self, key: &str) -> (r: Option<&String>)
        ensures
            r matches Some(s) ==> str_field(*self, key@) == Some(s@),
            r is None ==> str_field(*self, key@) is None,
    {
        match self.get(key) {
            Some(v) => v.as_str(),
            None => None,
        }
    }

    /// Member `key`, read as a `u64`.
    pub fn u64_field(&self, key: &str) -> (r: Option<u64>)
        ensures
            r == u64_field(*self, key@),
    {
        match self.get(key) {
            Some(v) => v.as_u64(),
            None => None,
        }
    }

    /// Member `key`, read as an `i64`.
    pub fn i64_field(&self, key: &str) -> (r: Option<i64>)
        ensures
            r == i64_field(*self, key@),
    {
        match self.get(key) {
            Some(v) => v.as_i64(),
            None => None,
        }
    }

    /// Member `key`, read as a boolean.
    pub fn bool_field(&self, key: &str) -> (r: Option<bool>)
        ensures
            r == bool_field(*self, key@),
    {
        match self.get(key) {
            Some(v) => v.as_bool(),
            None => None,
        }
    }
    /// The items of an array (`Value::as_array`).
    pub fn as_array(&self) -> (r: Option<&Vec<Json>>)
        ensures
            r matches Some(v) ==> *self == Json::Array(*v),
            r is None ==> !(*self is Array),
    {
        match self {
            Json::Array(items) => Some(items),
            _ => None,
        }
    }

    /// Whether the value is a string (`Value::is_string`).
    pub fn is_string(&self) -> (r: bool)
        ensures
            r == (*self is Str),
    {
        matches!(self, Json::Str(_))
    }

    /// Whether the value is an array (`Value::is_array`).
    pub fn is_array(&self) -> (r: bool)
        ensures
            r == (*self is Array),
    {
        matches!(self, Json::Array(_))
    }

    /// Whether the value is a number (`Value::is_number`).
    pub fn is_number(&self) -> (r: bool)
        ensures
            r == (*self is Number),
    {
        matches!(self, Json::Number(_))
    }

    /// Whether the value is a boolean (`Value::is_boolean`).
    pub fn is_boolean(&self) -> (r: bool)
        ensures
            r == (*self is Bool),
    {
        matches!(self, Json::Bool(_))
    }

    /// Whether the value is an object (`Value::is_object`).
    pub fn is_object(&self) -> (r: bool)
        ensures
            r == (*self is Object),
    {
        matches!(self, Json::Object(_))
    }
}

} // verus!
