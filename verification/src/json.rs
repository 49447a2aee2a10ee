//! JSON documents, read with the `serde_json` crate.
use serde_json::Value;
use vstd::prelude::*;

verus! {

/// `serde_json::Value`, a parsed document or a part of one.
#[verifier::external_type_specification]
#[verifier::external_body]
pub struct ExValue(Value);

/// What a JSON document says, up to the values of its numbers.
pub enum JsonTree {
    Null,
    Bool(bool),
    Number,
    Text(Seq<char>),
    Array(Seq<JsonTree>),
    Object(Map<Seq<char>, JsonTree>),
}

impl JsonTree {
    /// The member under `key`; null where there is none.
    pub open spec fn member(self, key: Seq<char>) -> JsonTree {
        match self {
            JsonTree::Object(members) if members.contains_key(key) => members[key],
            _ => JsonTree::Null,
        }
    }

    /// The text, if this is one.
    pub open spec fn text(self) -> Option<Seq<char>> {
        match self {
            JsonTree::Text(text) => Some(text),
            _ => None,
        }
    }

    /// The elements, if this is an array.
    pub open spec fn items(self) -> Option<Seq<JsonTree>> {
        match self {
            JsonTree::Array(items) => Some(items),
            _ => None,
        }
    }
}

/// What a parsed document holds.
pub uninterp spec fn tree_of(value: Value) -> JsonTree;

/// The document that a byte sequence spells, or the text of the parser's error.
pub uninterp spec fn json_document(bytes: Seq<u8>) -> Result<JsonTree, Seq<char>>;

/// `serde_json::from_slice` into a `Value`. The error comes back as its text.
#[verifier::external_body]
pub(crate) fn parse_json(bytes: &[u8]) -> (r: Result<Value, String>)
    ensures
        match r {
            Ok(value) => json_document(bytes@) == Ok::<JsonTree, Seq<char>>(tree_of(value)),
            Err(cause) => json_document(bytes@) == Err::<JsonTree, Seq<char>>(cause@),
        },
{
    serde_json::from_slice(bytes).map_err(|e| e.to_string())
}

/// `Value` indexed by a string: the member of an object, null otherwise.
#[verifier::external_body]
pub(crate) fn json_member<'a>(value: &'a Value, key: &str) -> (r: &'a Value)
    ensures
        tree_of(*r) == tree_of(*value).member(key@),
{
    &value[key]
}

/// `Value::as_str`: the text of a string.
#[verifier::external_body]
pub(crate) fn json_text(value: &Value) -> (r: Option<&str>)
    ensures
        match r {
            Some(text) => tree_of(*value).text() == Some(text@),
            None => tree_of(*value).text() is None,
        },
{
    value.as_str()
}

/// `Value::as_array`: the elements of an array.
#[verifier::external_body]
pub(crate) fn json_items(value: &Value) -> (r: Option<&Vec<Value>>)
    ensures
        match r {
            Some(items) => tree_of(*value).items() == Some(
                items@.map_values(|item: Value| tree_of(item)),
            ),
            None => tree_of(*value).items() is None,
        },
{
    value.as_array()
}

/// `Value::is_object`: whether the value is an object.
#[verifier::external_body]
pub(crate) fn json_is_object(value: &Value) -> (r: bool)
    ensures
        r == (tree_of(*value) is Object),
{
    value.is_object()
}

} // verus!
