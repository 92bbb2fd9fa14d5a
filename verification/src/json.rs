//! What is read of JSON texts, by way of `serde_json`.

use crate::text::{decimal, trimmed};
use vstd::prelude::*;
use vstd::string::*;

verus! {

/// A JSON value of `serde_json`.
#[verifier::external_type_specification]
#[verifier::external_body]
pub struct ExJsonValue(serde_json::Value);

/// The members of a JSON object of `serde_json`.
#[verifier::external_type_specification]
#[verifier::external_body]
#[verifier::reject_recursive_types(K)]
#[verifier::reject_recursive_types(V)]
pub struct ExJsonMembers<K, V>(serde_json::Map<K, V>);

/// A JSON number: how it is written, and the integer that it is.
#[derive(Debug, Clone)]
pub struct JsonNumber {
    pub text: String,
    pub int: Option<i64>,
    pub uint: Option<u64>,
}

/// A number as a mathematical value.
#[verifier::ext_equal]
pub struct JsonNumberView {
    pub text: Seq<char>,
    pub int: Option<i64>,
    pub uint: Option<u64>,
}

impl JsonNumberView {
    /// A number is written as a text that is not empty and has no white space on either side. An
    /// integer is written in decimal, and it is the same integer whichever way it is read.
    pub open spec fn consistent(self) -> bool {
        &&& self.text.len() > 0
        &&& trimmed(self.text) == self.text
        &&& match (self.int, self.uint) {
            (Some(i), uint) => {
                &&& self.text == decimal(i as int)
                &&& uint == if i < 0 {
                    None
                } else {
                    Some(i as u64)
                }
            },
            (None, Some(u)) => self.text == decimal(u as int) && u > i64::MAX,
            (None, None) => true,
        }
    }
}

/// A JSON value. What is in an array is never read.
#[derive(Debug)]
pub enum Json {
    Null,
    Bool(bool),
    Number(JsonNumber),
    Text(String),
    Array,
    Object(serde_json::Map<String, serde_json::Value>),
}

/// A JSON value as a mathematical value.
#[verifier::ext_equal]
pub enum JsonView {
    Null,
    Bool(bool),
    Number(JsonNumberView),
    Text(Seq<char>),
    Array,
    Object(Map<Seq<char>, JsonView>),
}

/// The members of an object, by name.
pub uninterp spec fn object_members(
    object: serde_json::Map<String, serde_json::Value>,
) -> Map<Seq<char>, JsonView>;

/// The members of the object that a text is as JSON, if it is one.
pub uninterp spec fn json_object_of(text: Seq<char>) -> Option<Map<Seq<char>, JsonView>>;

/// The texts of the array that a text is as JSON, if it is an array of texts.
pub uninterp spec fn json_texts_of(text: Seq<char>) -> Option<Seq<Seq<char>>>;

impl DeepView for JsonNumber {
    type V = JsonNumberView;

    open spec fn deep_view(&self) -> JsonNumberView {
        JsonNumberView { text: self.text@, int: self.int, uint: self.uint }
    }
}

impl DeepView for Json {
    type V = JsonView;

    open spec fn deep_view(&self) -> JsonView {
        match self {
            Json::Null => JsonView::Null,
            Json::Bool(b) => JsonView::Bool(*b),
            Json::Number(n) => JsonView::Number(n.deep_view()),
            Json::Text(s) => JsonView::Text(s@),
            Json::Array => JsonView::Array,
            Json::Object(object) => JsonView::Object(object_members(*object)),
        }
    }
}

/// The member of an object with a given name.
pub open spec fn member(members: Map<Seq<char>, JsonView>, name: Seq<char>) -> Option<JsonView> {
    if members.contains_key(name) {
        Some(members[name])
    } else {
        None
    }
}

/// `serde_json::from_str` for `serde_json::Value`: the object that the text is as JSON, if it is
/// one. What the text means is left to `json_object_of`.
#[verifier::external_body]
pub(crate) fn json_object(text: &str) -> (r: Option<serde_json::Map<String, serde_json::Value>>)
    ensures
        match r {
            Some(object) => json_object_of(text@) == Some(object_members(object)),
            None => json_object_of(text@) is None,
        },
{
    match serde_json::from_str::<serde_json::Value>(text) {
        Ok(serde_json::Value::Object(members)) => Some(members),
        _ => None,
    }
}

/// `serde_json::Map::get`: the member with the given name, if there is one. A number comes with
/// what `serde_json::Number` gives by `to_string`, `as_i64` and `as_u64`: an integer is written in
/// decimal and read as itself where it is in range. Of how other numbers are written it is only
/// said that there is something, and no white space on either side.
#[verifier::external_body]
pub(crate) fn json_member(
    object: &serde_json::Map<String, serde_json::Value>,
    name: &str,
) -> (r: Option<Json>)
    ensures
        r.deep_view() == member(object_members(*object), name@),
        r matches Some(Json::Number(n)) ==> n.deep_view().consistent(),
{
    Some(match object.get(name)? {
        serde_json::Value::Null => Json::Null,
        serde_json::Value::Bool(b) => Json::Bool(*b),
        serde_json::Value::Number(n) => Json::Number(
            JsonNumber { text: n.to_string(), int: n.as_i64(), uint: n.as_u64() },
        ),
        serde_json::Value::String(s) => Json::Text(s.clone()),
        serde_json::Value::Array(_) => Json::Array,
        serde_json::Value::Object(members) => Json::Object(members.clone()),
    })
}

/// `serde_json::from_str` for `Vec<String>`: the texts of the array that the text is as JSON, if
/// it is an array of texts. What the text means is left to `json_texts_of`.
#[verifier::external_body]
pub(crate) fn json_texts(text: &str) -> (r: Option<Vec<String>>)
    ensures
        r.deep_view() == json_texts_of(text@),
{
    serde_json::from_str::<Vec<String>>(text).ok()
}

} // verus!
