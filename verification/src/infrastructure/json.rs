//! JSON values of the `serde_json` crate, and what they hold.

use serde_json::{Number, Value};
use vstd::prelude::*;

use crate::model::messages::Reading;

verus! {

/// What a JSON value holds.
///
/// A number is given by the integer that it is stored as, if it is stored as
/// one, and by the bit pattern of the double that it is or that is nearest.
pub enum JsonNode {
    Null,
    Flag(bool),
    Number { integer: Option<int>, double: u64 },
    Text(Seq<char>),
    List(Seq<JsonNode>),
    Object(Map<Seq<char>, JsonNode>),
}

impl JsonNode {
    /// The member of an object with this key.
    pub open spec fn member(self, key: Seq<char>) -> Option<JsonNode> {
        match self {
            JsonNode::Object(members) => if members.contains_key(key) {
                Some(members[key])
            } else {
                None
            },
            _ => None,
        }
    }

    /// The text of the member with this key, if it is a text.
    pub open spec fn member_text(self, key: Seq<char>) -> Option<Seq<char>> {
        match self.member(key) {
            Some(JsonNode::Text(s)) => Some(s),
            _ => None,
        }
    }

    /// The double of the member with this key, if it is a number.
    pub open spec fn member_double(self, key: Seq<char>) -> Option<u64> {
        match self.member(key) {
            Some(JsonNode::Number { double, .. }) => Some(double),
            _ => None,
        }
    }

    /// An object with this member put in; anything else as it is.
    pub open spec fn with_member(self, key: Seq<char>, value: JsonNode) -> JsonNode {
        match self {
            JsonNode::Object(members) => JsonNode::Object(members.insert(key, value)),
            other => other,
        }
    }
}

/// The value type of the `serde_json` crate.
#[verifier::external_type_specification]
#[verifier::external_body]
pub struct ExValue(Value);

/// The number type of the `serde_json` crate.
#[verifier::external_type_specification]
#[verifier::external_body]
pub struct ExNumber(Number);

/// The error of the `serde_json` crate.
#[verifier::external_type_specification]
#[verifier::external_body]
pub struct ExJsonError(serde_json::Error);

/// What a value holds.
pub uninterp spec fn json_node(value: Value) -> JsonNode;

/// What a number holds, as a value.
pub uninterp spec fn number_node(number: Number) -> JsonNode;

/// What an integer is as a value.
pub uninterp spec fn integer_node(n: i64) -> JsonNode;

/// What the text of a JSON document holds; `None` if it is none.
pub uninterp spec fn parsed_json(document: Seq<char>) -> Option<JsonNode>;

/// The compact text of a JSON document, in UTF-8.
pub uninterp spec fn json_bytes(node: JsonNode) -> Seq<u8>;

/// The shortest decimal text of the double with this bit pattern.
pub uninterp spec fn double_text(bits: u64) -> Seq<char>;

/// `serde_json::from_str` to a value: what it gives, and whether it fails,
/// depends on the text alone.
#[verifier::external_body]
pub(crate) fn parse_json(document: &str) -> (r: Result<Value, serde_json::Error>)
    ensures
        match r {
            Ok(value) => parsed_json(document@) == Some(json_node(value)),
            Err(_) => parsed_json(document@) is None,
        },
{
    serde_json::from_str(document)
}

/// `serde_json::to_vec` of a value: the members of an object stand in the order
/// of their keys, so that the bytes depend on what the value holds alone. It
/// does not fail on a value.
#[verifier::external_body]
pub(crate) fn render_json(value: &Value) -> (r: Result<Vec<u8>, serde_json::Error>)
    ensures
        match r {
            Ok(bytes) => bytes@ == json_bytes(json_node(*value)),
            Err(_) => false,
        },
{
    serde_json::to_vec(value)
}

/// `Value::get` with a key: the member of an object, if there is one.
#[verifier::external_body]
pub(crate) fn get<'a>(value: &'a Value, key: &str) -> (r: Option<&'a Value>)
    ensures
        match r {
            Some(member) => json_node(*value).member(key@) == Some(json_node(*member)),
            None => json_node(*value).member(key@) is None,
        },
{
    value.get(key)
}

/// `Value::get_mut` with a key: the member of an object, if there is one. What
/// becomes of the member is the only change to the object.
#[verifier::external_body]
pub(crate) fn get_mut<'a>(value: &'a mut Value, key: &str) -> (r: Option<&'a mut Value>)
    ensures
        match r {
            Some(member) => {
                &&& json_node(*old(value)).member(key@) == Some(json_node(*member))
                &&& json_node(*final(value)) == json_node(*old(value)).with_member(
                    key@,
                    json_node(*final(member)),
                )
            },
            None => {
                &&& json_node(*old(value)).member(key@) is None
                &&& json_node(*final(value)) == json_node(*old(value))
            },
        },
{
    value.get_mut(key)
}

/// `Value::as_str`: the text of a value that is a text.
#[verifier::external_body]
pub(crate) fn as_str<'a>(value: &'a Value) -> (r: Option<&'a str>)
    ensures
        match json_node(*value) {
            JsonNode::Text(s) => r matches Some(text) && text@ == s,
            _ => r is None,
        },
{
    value.as_str()
}

/// `Value::is_object`.
#[verifier::external_body]
pub(crate) fn is_object(value: &Value) -> (r: bool)
    ensures
        r == (json_node(*value) is Object),
{
    value.is_object()
}

/// `Value::as_f64`: the double of a value that is a number, given by its bit
/// pattern and by the text that `Display` gives it.
#[verifier::external_body]
pub(crate) fn as_reading(value: &Value) -> (r: Option<Reading>)
    ensures
        match json_node(*value) {
            JsonNode::Number { double, .. } => r matches Some(reading) && reading.bits == double
                && reading.text@ == double_text(double),
            _ => r is None,
        },
{
    value.as_f64().map(|x| Reading { bits: x.to_bits(), text: x.to_string() })
}

/// `Map::insert` on the members of an object, which puts the member in, in
/// place of the one with that key. A value that is no object stays as it is.
#[verifier::external_body]
pub(crate) fn insert(value: &mut Value, key: &str, member: Value)
    ensures
        json_node(*final(value)) == json_node(*old(value)).with_member(key@, json_node(member)),
{
    if let Some(members) = value.as_object_mut() {
        members.insert(key.to_string(), member);
    }
}

/// `Value::String`.
#[verifier::external_body]
pub(crate) fn text_value(s: String) -> (r: Value)
    ensures
        json_node(r) == JsonNode::Text(s@),
{
    Value::String(s)
}

/// `Value::Number`.
#[verifier::external_body]
pub(crate) fn number_value(number: Number) -> (r: Value)
    ensures
        json_node(r) == number_node(number),
{
    Value::Number(number)
}

/// `Value::from` on an integer: a number that is stored as this integer. Of its
/// double nothing is said.
#[verifier::external_body]
pub(crate) fn integer_value(n: i64) -> (r: Value)
    ensures
        json_node(r) == integer_node(n),
        match json_node(r) {
            JsonNode::Number { integer, .. } => integer == Some(n as int),
            _ => false,
        },
{
    Value::from(n)
}

/// `Value::Object` of an empty `Map`.
#[verifier::external_body]
pub(crate) fn empty_object() -> (r: Value)
    ensures
        json_node(r) == JsonNode::Object(Map::empty()),
{
    Value::Object(serde_json::Map::new())
}

/// A member that was set is read back, and the others are as before.
pub proof fn law_member_is_read_back(
    node: JsonNode,
    key: Seq<char>,
    value: JsonNode,
    other: Seq<char>,
)
    ensures
        node is Object ==> node.with_member(key, value).member(key) == Some(value),
        other != key ==> node.with_member(key, value).member(other) == node.member(other),
        !(node is Object) ==> node.member(key) is None && node.with_member(key, value) == node,
        node.member_text(key) matches Some(s) ==> node.member(key) == Some(JsonNode::Text(s)),
        node.member(key) matches Some(JsonNode::Text(s)) ==> node.member_text(key) == Some(s),
        node.member_double(key) matches Some(bits) ==> (node.member(key) matches Some(
            JsonNode::Number { double, .. },
        ) && double == bits),
{
}

} // verus!
