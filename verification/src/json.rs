//! JSON documents as plain values, and parsing text into them with serde_json.
use vstd::prelude::*;
use crate::text::{lemma_member_index_stable, member_index};

verus! {

/// A JSON value. A number holds its value as an `i64` when it is an integer
/// that fits one, `None` otherwise. An object holds its members in the order
/// serde_json hands them out, each key once.
#[derive(Debug)]
pub enum JsonValue {
    Null,
    Bool(bool),
    Number(Option<i64>),
    Str(String),
    Array(Vec<JsonValue>),
    Object(Vec<(String, JsonValue)>),
}

#[verifier::external_type_specification]
#[verifier::external_body]
pub struct ExJsonError(serde_json::Error);

#[verifier::external_type_specification]
#[verifier::external_body]
pub struct ExSerdeValue(serde_json::Value);

/// What serde_json parses `text` into, converted to a `JsonValue`; `None` when
/// the text is not a JSON document.
pub uninterp spec fn parsed_json(text: Seq<char>) -> Option<JsonValue>;

/// Converts a serde_json value to a `JsonValue`, member by member.
#[verifier::external_body]
fn json_from_serde(v: serde_json::Value) -> JsonValue {
    match v {
        serde_json::Value::Null => JsonValue::Null,
        serde_json::Value::Bool(b) => JsonValue::Bool(b),
        serde_json::Value::Number(n) => JsonValue::Number(n.as_i64()),
        serde_json::Value::String(s) => JsonValue::Str(s),
        serde_json::Value::Array(a) => JsonValue::Array(a.into_iter().map(json_from_serde).collect()),
        serde_json::Value::Object(o) => JsonValue::Object(
            o.into_iter().map(|(k, v)| (k, json_from_serde(v))).collect(),
        ),
    }
}

/// Parses `text` with `serde_json::from_str` into a `serde_json::Value` and
/// converts it. The result is claimed to be a function of the text alone,
/// named `parsed_json`; what that function is, is serde_json's.
#[verifier::external_body]
fn serde_parse(text: &str) -> (r: Result<JsonValue, serde_json::Error>)
    ensures
        r is Ok <==> parsed_json(text@) is Some,
        r matches Ok(v) ==> parsed_json(text@) == Some(v),
{
    match serde_json::from_str::<serde_json::Value>(text) {
        Ok(v) => Ok(json_from_serde(v)),
        Err(e) => Err(e),
    }
}

/// Text that is not a JSON document.
#[derive(Debug, Clone, Copy, PartialEq, Eq, Structural)]
pub struct InvalidJson;

/// Parses a JSON document.
pub fn parse_json(text: &str) -> (r: Result<JsonValue, InvalidJson>)
    ensures
        r is Err <==> parsed_json(text@) is None,
        r matches Ok(v) ==> parsed_json(text@) == Some(v),
{
    match serde_parse(text) {
        Ok(v) => Ok(v),
        Err(_) => Err(InvalidJson),
    }
}

/// The member `key` of an object (`Value::get`); `None` for a value that is
/// not an object or has no such member.
pub open spec fn field(v: JsonValue, key: Seq<char>) -> Option<JsonValue> {
    match v {
        JsonValue::Object(members) => match member_index(members@, key, members@.len() as int) {
            Some(i) => Some(members@[i].1),
            None => None,
        },
        _ => None,
    }
}

/// The member `key` of an object, `Null` when there is none (`Value`'s
/// indexing by a key).
pub open spec fn field_or_null(v: JsonValue, key: Seq<char>) -> JsonValue {
    match field(v, key) {
        Some(f) => f,
        None => JsonValue::Null,
    }
}

impl JsonValue {
    /// The member `key` of an object, if this is an object that has one.
    pub fn get(&self, key: &str) -> (r: Option<&JsonValue>)
        ensures
            r matches Some(f) ==> field(*self, key@) == Some(*f),
            r is None ==> field(*self, key@) is None,
    {
        match self {
            JsonValue::Object(members) => {
                let mut i: usize = 0;
                while i < members.len()
                    invariant
                        i <= members@.len(),
                        member_index(members@, key@, i as int) is None,
                        field(*self, key@) == (match member_index(
                            members@,
                            key@,
                            members@.len() as int,
                        ) {
                            Some(j) => Some(members@[j].1),
                            None => None,
                        }),
                    decreases members.len() - i,
                {
                    if crate::text::same_text(members[i].0.as_str(), key) {
                        proof {
                            assert(member_index(members@, key@, i + 1) == Some(i as int));
                            lemma_member_index_stable(members@, key@, i + 1, members@.len() as int);
                            assert(members@[i as int].1 == members[i as int].1);
                        }
                        return Some(&members[i].1);
                    }
                    i = i + 1;
                }
                None
            },
            _ => None,
        }
    }

    /// The text of a string value.
    pub fn as_str(&self) -> (r: Option<&String>)
        ensures
            r matches Some(s) ==> *self == JsonValue::Str(*s),
            r is None ==> !(self is Str),
    {
        match self {
            JsonValue::Str(s) => Some(s),
            _ => None,
        }
    }

    /// The value of a number that is an integer fitting an `i64`.
    pub fn as_i64(&self) -> (r: Option<i64>)
        ensures
            r matches Some(n) ==> *self == JsonValue::Number(Some(n)),
            r is None ==> !(*self matches JsonValue::Number(Some(_))),
    {
        match self {
            JsonValue::Number(n) => *n,
            _ => None,
        }
    }
}

} // verus!
