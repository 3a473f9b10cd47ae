//! Reading of loosely typed response documents.

use serde_json::Value;
use vstd::prelude::*;
use vstd::string::*;

verus! {

/// `serde_json::Value`, a response document. Nothing inside it is
/// visible; it is read through the functions below.
#[verifier::external_type_specification]
#[verifier::external_body]
pub struct ExValue(serde_json::Value);

/// The member of an object under a key; `None` for a missing key and for
/// a document that is no object.
pub uninterp spec fn json_member(value: Value, key: Seq<char>) -> Option<Value>;

/// The element of an array at an index; `None` past the end and for a
/// document that is no array.
pub uninterp spec fn json_element(value: Value, index: nat) -> Option<Value>;

/// The text of a string document; `None` for any other document.
pub uninterp spec fn json_text(value: Value) -> Option<Seq<char>>;

/// The elements of an array document; `None` for any other document.
pub uninterp spec fn json_items(value: Value) -> Option<Seq<Value>>;

/// A borrowed document, as the document itself.
pub open spec fn owned(value: Option<&Value>) -> Option<Value> {
    match value {
        Some(v) => Some(*v),
        None => None,
    }
}

/// The member under `key` of a document that may be missing.
pub open spec fn at_key(value: Option<Value>, key: Seq<char>) -> Option<Value> {
    match value {
        Some(v) => json_member(v, key),
        None => None,
    }
}

/// The element at `index` of a document that may be missing.
pub open spec fn at_index(value: Option<Value>, index: nat) -> Option<Value> {
    match value {
        Some(v) => json_element(v, index),
        None => None,
    }
}

/// The text of a document that may be missing.
pub open spec fn text_at(value: Option<Value>) -> Option<Seq<char>> {
    match value {
        Some(v) => json_text(v),
        None => None,
    }
}

/// The elements of a document that may be missing.
pub open spec fn items_at(value: Option<Value>) -> Option<Seq<Value>> {
    match value {
        Some(v) => json_items(v),
        None => None,
    }
}

/// The characters of a string that may be missing.
pub open spec fn text_view(text: Option<String>) -> Option<Seq<char>> {
    match text {
        Some(s) => Some(s@),
        None => None,
    }
}

/// `serde_json::Value::get` with a string key. The contract only names
/// the result.
#[verifier::external_body]
fn member<'a>(value: &'a Value, key: &str) -> (found: Option<&'a Value>)
    ensures
        owned(found) == json_member(*value, key@),
{
    value.get(key)
}

/// `serde_json::Value::get` with an index. The contract only names the
/// result.
#[verifier::external_body]
fn element<'a>(value: &'a Value, index: usize) -> (found: Option<&'a Value>)
    ensures
        owned(found) == json_element(*value, index as nat),
{
    value.get(index)
}

/// `serde_json::Value::as_str`. The contract only names the result.
#[verifier::external_body]
fn as_text<'a>(value: &'a Value) -> (text: Option<&'a str>)
    ensures
        match text {
            Some(s) => json_text(*value) == Some(s@),
            None => json_text(*value) is None,
        },
{
    value.as_str()
}

/// `serde_json::Value::as_array`. The contract only names the result.
#[verifier::external_body]
fn as_items<'a>(value: &'a Value) -> (items: Option<&'a Vec<Value>>)
    ensures
        match items {
            Some(v) => json_items(*value) == Some(v@),
            None => json_items(*value) is None,
        },
{
    value.as_array()
}

/// The member under `key` of a document that may be missing.
pub fn field<'a>(value: Option<&'a Value>, key: &str) -> (found: Option<&'a Value>)
    ensures
        owned(found) == at_key(owned(value), key@),
{
    match value {
        Some(v) => member(v, key),
        None => None,
    }
}

/// The element at `index` of a document that may be missing.
pub fn item<'a>(value: Option<&'a Value>, index: usize) -> (found: Option<&'a Value>)
    ensures
        owned(found) == at_index(owned(value), index as nat),
{
    match value {
        Some(v) => element(v, index),
        None => None,
    }
}

/// The text of a document that may be missing, as an owned string.
pub fn text<'a>(value: Option<&'a Value>) -> (found: Option<String>)
    ensures
        text_view(found) == text_at(owned(value)),
{
    match value {
        Some(v) => match as_text(v) {
            Some(s) => Some(String::from_str(s)),
            None => None,
        },
        None => None,
    }
}

/// The elements of a document that may be missing.
pub fn items<'a>(value: Option<&'a Value>) -> (found: Option<&'a Vec<Value>>)
    ensures
        match found {
            Some(v) => items_at(owned(value)) == Some(v@),
            None => items_at(owned(value)) is None,
        },
{
    match value {
        Some(v) => as_items(v),
        None => None,
    }
}

} // verus!
