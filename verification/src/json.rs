//! JSON values: a mathematical model of `serde_json::Value`, and the calls into `serde_json`.

use serde_json::Value;
use vstd::prelude::*;

verus! {

/// `serde_json::Value`, the JSON tree that the crate parses into and writes out.
#[verifier::external_type_specification]
#[verifier::external_body]
pub struct ExValue(serde_json::Value);

/// What a JSON value is: the tree itself, with an object as a map from its keys.
pub enum Json {
    Null,
    Bool(bool),
    /// A whole number that is not negative.
    Unsigned(u64),
    /// A whole number below zero.
    Negative(i64),
    /// Any other number, as the bits of its double.
    Float(u64),
    Text(Seq<char>),
    List(Seq<Json>),
    Object(Map<Seq<char>, Json>),
}

impl Json {
    /// The member of an object that stands under `key`.
    pub open spec fn member(self, key: Seq<char>) -> Option<Json> {
        match self {
            Json::Object(members) => if members.contains_key(key) {
                Some(members[key])
            } else {
                None
            },
            _ => None,
        }
    }

    /// The characters of a text.
    pub open spec fn text(self) -> Option<Seq<char>> {
        match self {
            Json::Text(s) => Some(s),
            _ => None,
        }
    }

    /// The value of a whole number that is not negative.
    pub open spec fn unsigned(self) -> Option<u64> {
        match self {
            Json::Unsigned(n) => Some(n),
            _ => None,
        }
    }
}

/// A member of a value that may be missing.
pub open spec fn member_of(value: Option<Json>, key: Seq<char>) -> Option<Json> {
    match value {
        Some(v) => v.member(key),
        None => None,
    }
}

/// The key by which `serde_json` marks text that is JSON already: an object that begins with it is
/// read as what that text holds.
pub open spec fn raw_value_key() -> Seq<char> {
    "$serde_json::private::RawValue"@
}

/// A tree has no number with a fraction or an exponent, no object with the key by which
/// `serde_json` marks text that is JSON already, and nests at most `depth` lists and objects.
pub open spec fn is_plain(tree: Json, depth: nat) -> bool
    decreases depth,
{
    match tree {
        Json::Float(_) => false,
        Json::List(items) => depth > 0 && forall|i: int|
            0 <= i < items.len() ==> is_plain(#[trigger] items[i], (depth - 1) as nat),
        Json::Object(members) => depth > 0 && !members.contains_key(raw_value_key()) && forall|
            key: Seq<char>,
        | #[trigger]
            members.contains_key(key) ==> is_plain(members[key], (depth - 1) as nat),
        _ => true,
    }
}

/// The tree that a `serde_json::Value` holds.
pub uninterp spec fn json_tree(value: Value) -> Json;

/// What `serde_json::from_slice` reads into a `Value`: the tree, or `None` where it reports an
/// error.
pub uninterp spec fn json_parsed(bytes: Seq<u8>) -> Option<Json>;

/// The bytes that `serde_json::to_vec` writes for a tree.
pub uninterp spec fn json_bytes(tree: Json) -> Seq<u8>;

/// `serde_json::from_slice::<Value>` reads a whole input as one JSON value, or reports an error.
/// Which bytes are JSON, and of which tree, is left to `json_parsed`.
#[verifier::external_body]
pub(crate) fn parse_json(bytes: &[u8]) -> (value: Option<Value>)
    ensures
        match value {
            Some(v) => json_parsed(bytes@) == Some(json_tree(v)),
            None => json_parsed(bytes@) is None,
        },
{
    serde_json::from_slice::<Value>(bytes).ok()
}

/// `Value::get` with a string key gives the member of an object under that key, and `None` for
/// a missing key or a value that is not an object.
#[verifier::external_body]
pub(crate) fn json_get<'a>(value: &'a Value, key: &str) -> (member: Option<&'a Value>)
    ensures
        match member {
            Some(m) => json_tree(*value).member(key@) == Some(json_tree(*m)),
            None => json_tree(*value).member(key@) is None,
        },
{
    value.get(key)
}

/// `Value::as_str` gives the characters of a JSON string, and `None` for any other value.
#[verifier::external_body]
pub(crate) fn json_str<'a>(value: &'a Value) -> (text: Option<&'a str>)
    ensures
        match text {
            Some(t) => json_tree(*value).text() == Some(t@),
            None => json_tree(*value).text() is None,
        },
{
    value.as_str()
}

/// `Value::as_u64` gives a number that is whole and not negative, and `None` for any other value.
#[verifier::external_body]
pub(crate) fn json_u64(value: &Value) -> (number: Option<u64>)
    ensures
        number == json_tree(*value).unsigned(),
{
    value.as_u64()
}

/// `serde_json::to_vec` writes a `Value` as JSON. On a `Value` it cannot fail: every key is a
/// string, and writing to a vector never reports an error. `from_slice` reads back what it wrote
/// of a tree without fractions that is not nested too deeply and in which no object has the key
/// `raw_value_key`; of other trees nothing is said.
#[verifier::external_body]
pub(crate) fn json_to_vec(value: &Value) -> (bytes: Result<Vec<u8>, serde_json::Error>)
    ensures
        bytes is Ok,
        bytes->Ok_0@ == json_bytes(json_tree(*value)),
        is_plain(json_tree(*value), 16) ==> json_parsed(bytes->Ok_0@) == Some(json_tree(*value)),
{
    serde_json::to_vec(value)
}

/// `serde_json::Map::new` makes an object without members.
#[verifier::external_body]
pub(crate) fn json_object() -> (value: Value)
    ensures
        json_tree(value) == Json::Object(Map::empty()),
{
    Value::Object(serde_json::Map::new())
}

/// Assigning to `value[key]` puts a member into an object, in place of the one that stood under
/// that key.
#[verifier::external_body]
pub(crate) fn json_set(object: &mut Value, key: &str, member: Value)
    requires
        json_tree(*old(object)) is Object,
    ensures
        json_tree(*final(object)) == Json::Object(
            json_tree(*old(object))->Object_0.insert(key@, json_tree(member)),
        ),
{
    object[key] = member;
}

/// `Value::from` makes a JSON string of a string slice.
#[verifier::external_body]
pub(crate) fn json_text(text: &str) -> (value: Value)
    ensures
        json_tree(value) == Json::Text(text@),
{
    Value::from(text)
}

/// `Value::from` makes a JSON number of an unsigned integer.
#[verifier::external_body]
pub(crate) fn json_number(number: u32) -> (value: Value)
    ensures
        json_tree(value) == Json::Unsigned(number as u64),
{
    Value::from(number)
}

/// `Value::from` makes a JSON list of the values of a vector, in their order.
#[verifier::external_body]
pub(crate) fn json_list(items: Vec<Value>) -> (value: Value)
    ensures
        json_tree(value) == Json::List(Seq::new(items@.len(), |i: int| json_tree(items@[i]))),
{
    Value::from(items)
}

/// `serde_json::Error`, what `serde_json` reports where it fails.
#[verifier::external_type_specification]
#[verifier::external_body]
pub struct ExError(serde_json::Error);

} // verus!
