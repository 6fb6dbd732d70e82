//! Reading JSON texts.
//!
//! The catalog answers in JSON. The functions here take a JSON text apart,
//! one level at a time, and hand each part back as a text of its own; the
//! parsing itself is `serde_json`'s. What they return is trusted, not proved.

use vstd::prelude::*;

use crate::text::texts_of;

verus! {

/// The member `key` of the JSON object that `document` holds, as compact JSON
/// text; `None` where `document` is not JSON, holds no object, or the object
/// has no such member.
pub uninterp spec fn json_member_text(document: Seq<char>, key: Seq<char>) -> Option<Seq<char>>;

/// The string that `document` holds; `None` where `document` is not JSON or
/// holds anything but a string.
pub uninterp spec fn json_string_value(document: Seq<char>) -> Option<Seq<char>>;

/// The elements of the JSON array that `document` holds, each as compact JSON
/// text, in the array's order; `None` where `document` is not JSON or holds
/// anything but an array.
pub uninterp spec fn json_item_texts(document: Seq<char>) -> Option<Seq<Seq<char>>>;

/// Parses `document` with `serde_json::from_str`, looks `key` up with
/// `serde_json::Value::get` and renders the member with the value's
/// `to_string`.
///
/// Trusted: the result is [`json_member_text`] of the two arguments, present
/// exactly where the document parses to an object that has the member. The
/// three calls depend on nothing but their arguments.
#[verifier::external_body]
pub(crate) fn json_member(document: &str, key: &str) -> (member: Option<String>)
    ensures
        match member {
            Some(text) => json_member_text(document@, key@) == Some(text@),
            None => json_member_text(document@, key@) is None,
        },
{
    let value: serde_json::Value = match serde_json::from_str(document) {
        Ok(parsed) => parsed,
        Err(_) => return None,
    };
    match value.get(key) {
        Some(member) => Some(member.to_string()),
        None => None,
    }
}

/// Parses `document` with `serde_json::from_str` and reads the string with
/// `serde_json::Value::as_str`.
///
/// Trusted: the result is [`json_string_value`] of the argument, present
/// exactly where the document parses to a string.
#[verifier::external_body]
pub(crate) fn json_string(document: &str) -> (string: Option<String>)
    ensures
        match string {
            Some(text) => json_string_value(document@) == Some(text@),
            None => json_string_value(document@) is None,
        },
{
    let value: serde_json::Value = match serde_json::from_str(document) {
        Ok(parsed) => parsed,
        Err(_) => return None,
    };
    match value.as_str() {
        Some(text) => Some(text.to_string()),
        None => None,
    }
}

/// Parses `document` with `serde_json::from_str`, takes the elements with
/// `serde_json::Value::as_array` and renders each with the value's
/// `to_string`.
///
/// Trusted: the result is [`json_item_texts`] of the argument, present
/// exactly where the document parses to an array, with one text for each
/// element, in the array's order.
#[verifier::external_body]
pub(crate) fn json_items(document: &str) -> (items: Option<Vec<String>>)
    ensures
        match items {
            Some(texts) => json_item_texts(document@) == Some(texts_of(texts@)),
            None => json_item_texts(document@) is None,
        },
{
    let value: serde_json::Value = match serde_json::from_str(document) {
        Ok(parsed) => parsed,
        Err(_) => return None,
    };
    let elements = match value.as_array() {
        Some(elements) => elements,
        None => return None,
    };
    let mut texts: Vec<String> = Vec::new();
    for element in elements {
        texts.push(element.to_string());
    }
    Some(texts)
}

} // verus!
