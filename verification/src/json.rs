//! Reading values out of a JSON document.
//!
//! Parsing is serde_json's. What a parsed value holds is modelled by
//! [`JsonTree`], and the functions here say how serde_json's accessors read
//! that tree.

use serde_json::Value;
use vstd::prelude::*;

verus! {

/// `serde_json::Value`, of which nothing is known here but what the
/// functions below say.
#[verifier::external_type_specification]
#[verifier::external_body]
pub struct ExValue(serde_json::Value);

/// `serde_json::Error`, which is only ever dropped.
#[verifier::external_type_specification]
#[verifier::external_body]
pub struct ExJsonError(serde_json::Error);

/// A JSON value. Of numbers only those are told apart that are integers and
/// fit in 64 bits without a sign.
pub enum JsonTree {
    Null,
    Bool(bool),
    Unsigned(u64),
    OtherNumber,
    Text(Seq<char>),
    Array(Seq<JsonTree>),
    Object(Map<Seq<char>, JsonTree>),
}

impl JsonTree {
    /// The member of an object under `key`; null where the value is no
    /// object or has no such member.
    pub open spec fn member(self, key: Seq<char>) -> JsonTree {
        match self {
            JsonTree::Object(members) => if members.contains_key(key) {
                members[key]
            } else {
                JsonTree::Null
            },
            _ => JsonTree::Null,
        }
    }

    /// The element of an array at `index`; null where the value is no array
    /// or is shorter.
    pub open spec fn element(self, index: int) -> JsonTree {
        match self {
            JsonTree::Array(elements) => if 0 <= index < elements.len() {
                elements[index]
            } else {
                JsonTree::Null
            },
            _ => JsonTree::Null,
        }
    }

    /// The value as an unsigned integer, where it is one.
    pub open spec fn as_unsigned(self) -> Option<u64> {
        match self {
            JsonTree::Unsigned(n) => Some(n),
            _ => None,
        }
    }

    /// The value as a text, where it is one.
    pub open spec fn as_text(self) -> Option<Seq<char>> {
        match self {
            JsonTree::Text(text) => Some(text),
            _ => None,
        }
    }
}

/// What a value of serde_json holds.
pub uninterp spec fn json_tree(value: Value) -> JsonTree;

/// What serde_json reads a text as, or `None` where it rejects the text.
pub uninterp spec fn parsed_json(text: Seq<char>) -> Option<JsonTree>;

/// Calls `serde_json::from_str` for a `Value`. JSON's grammar is not
/// described here: the contract only names the outcome, which depends on the
/// text alone.
#[verifier::external_body]
fn parse_value(text: &str) -> (parsed: Result<Value, serde_json::Error>)
    ensures
        parsed is Ok <==> parsed_json(text@) is Some,
        parsed matches Ok(value) ==> parsed_json(text@) == Some(json_tree(value)),
{
    serde_json::from_str(text)
}

/// Indexes a `Value` with a string, as `value[key]` does: serde_json hands
/// out the member of an object, and a null for anything else.
#[verifier::external_body]
fn value_member<'a>(value: &'a Value, key: &str) -> (found: &'a Value)
    ensures
        json_tree(*found) == json_tree(*value).member(key@),
{
    &value[key]
}

/// Indexes a `Value` with a number, as `value[index]` does: serde_json hands
/// out the element of an array, and a null for anything else.
#[verifier::external_body]
fn value_element<'a>(value: &'a Value, index: usize) -> (found: &'a Value)
    ensures
        json_tree(*found) == json_tree(*value).element(index as int),
{
    &value[index]
}

/// `Value::as_u64` returns the number where the value is an integer that
/// fits in 64 bits without a sign.
pub assume_specification[ Value::as_u64 ](value: &Value) -> (number: Option<u64>)
    ensures
        number == json_tree(*value).as_unsigned(),
;

/// `Value::as_str` returns the text where the value is a string.
pub assume_specification<'a>[ Value::as_str ](value: &'a Value) -> (text: Option<&'a str>)
    ensures
        text is Some <==> json_tree(*value).as_text() is Some,
        text matches Some(t) ==> json_tree(*value).as_text() == Some(t@),
;

/// A parsed JSON document.
pub struct Document {
    root: Value,
}

impl View for Document {
    type V = JsonTree;

    closed spec fn view(&self) -> JsonTree {
        json_tree(self.root)
    }
}

/// The text is no JSON document.
#[derive(Clone, Copy, Debug, PartialEq, Eq)]
pub struct MalformedJson;

impl Document {
    /// Parses a JSON document.
    pub fn parse(text: &str) -> (document: Result<Document, MalformedJson>)
        ensures
            document is Ok <==> parsed_json(text@) is Some,
            document matches Ok(d) ==> parsed_json(text@) == Some(d@),
    {
        match parse_value(text) {
            Ok(root) => Ok(Document { root }),
            Err(_) => Err(MalformedJson),
        }
    }

    /// The document's outermost value.
    pub fn root(&self) -> (node: Node<'_>)
        ensures
            node@ == self@,
    {
        Node { value: &self.root }
    }
}

/// A value inside a parsed document.
#[derive(Clone, Copy)]
pub struct Node<'a> {
    value: &'a Value,
}

impl<'a> View for Node<'a> {
    type V = JsonTree;

    closed spec fn view(&self) -> JsonTree {
        json_tree(*self.value)
    }
}

impl<'a> Node<'a> {
    /// The member under `key`, or a null.
    pub fn member(&self, key: &str) -> (found: Node<'a>)
        ensures
            found@ == self@.member(key@),
    {
        Node { value: value_member(self.value, key) }
    }

    /// The element at `index`, or a null.
    pub fn element(&self, index: usize) -> (found: Node<'a>)
        ensures
            found@ == self@.element(index as int),
    {
        Node { value: value_element(self.value, index) }
    }

    /// The value as an unsigned integer, where it is one.
    pub fn as_unsigned(&self) -> (number: Option<u64>)
        ensures
            number == self@.as_unsigned(),
    {
        self.value.as_u64()
    }

    /// The value as a text, where it is one.
    pub fn as_text(&self) -> (text: Option<String>)
        ensures
            text is Some <==> self@.as_text() is Some,
            text matches Some(t) ==> self@.as_text() == Some(t@),
    {
        match self.value.as_str() {
            Some(found) => Some(String::from_str(found)),
            None => None,
        }
    }
}

} // verus!
