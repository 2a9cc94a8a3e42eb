//! JSON documents as trees of plain values.

use vstd::prelude::*;
use serde_json::Value;

verus! {

/// A JSON value. A number is held as the text that stands for it in a
/// document; the members of an object are held in the order in which the
/// document lists them.
#[derive(Debug, PartialEq, Eq)]
pub enum Json {
    Null,
    Bool(bool),
    Number(String),
    Text(String),
    Array(Vec<Json>),
    Object(Vec<(String, Json)>),
}

/// What a JSON value holds.
pub enum JsonView {
    Null,
    Bool(bool),
    Number(Seq<char>),
    Text(Seq<char>),
    Array(Seq<JsonView>),
    Object(Seq<(Seq<char>, JsonView)>),
}

/// What the members of an object hold: names and values, in their order.
pub type ObjectView = Seq<(Seq<char>, JsonView)>;

impl View for Json {
    type V = JsonView;

    open spec fn view(&self) -> JsonView
        decreases self,
    {
        match self {
            Json::Null => JsonView::Null,
            Json::Bool(flag) => JsonView::Bool(*flag),
            Json::Number(text) => JsonView::Number(text@),
            Json::Text(text) => JsonView::Text(text@),
            Json::Array(items) => JsonView::Array(
                Seq::new(
                    items@.len(),
                    |i: int|
                        if 0 <= i < items@.len() {
                            items@[i]@
                        } else {
                            JsonView::Null
                        },
                ),
            ),
            Json::Object(members) => JsonView::Object(object_view(members@)),
        }
    }
}

/// What the members of an object hold, in their order.
pub open spec fn object_view(members: Seq<(String, Json)>) -> ObjectView
    decreases members,
{
    Seq::new(
        members.len(),
        |i: int|
            if 0 <= i < members.len() {
                (members[i].0@, members[i].1@)
            } else {
                (Seq::empty(), JsonView::Null)
            },
    )
}

/// serde_json's tree of JSON values. Nothing is known of what it holds.
#[verifier::external_type_specification]
#[verifier::external_body]
pub struct ExValue(Value);

/// The tree that serde_json reads out of a text, or `None` where the text is
/// no JSON document.
pub uninterp spec fn json_of_text(text: Seq<char>) -> Option<JsonView>;

/// The text that serde_json writes for a tree, where it writes one.
pub uninterp spec fn text_of_json(tree: JsonView) -> Option<Seq<char>>;

/// Copies a tree of serde_json, variant by variant: a number by its
/// `to_string`, the members of an object in the order of `Map::iter`.
#[verifier::external_body]
fn tree_of_value(value: &Value) -> Json {
    match value {
        Value::Null => Json::Null,
        Value::Bool(flag) => Json::Bool(*flag),
        Value::Number(number) => Json::Number(number.to_string()),
        Value::String(text) => Json::Text(text.clone()),
        Value::Array(items) => Json::Array(items.iter().map(tree_of_value).collect()),
        Value::Object(members) => Json::Object(
            members.iter().map(|(key, value)| (key.clone(), tree_of_value(value))).collect(),
        ),
    }
}

/// Copies a tree into one of serde_json, variant by variant; a number whose
/// text serde_json does not take becomes `null`.
#[verifier::external_body]
fn value_of_tree(tree: &Json) -> Value {
    match tree {
        Json::Null => Value::Null,
        Json::Bool(flag) => Value::Bool(*flag),
        Json::Number(text) => text.parse().map(Value::Number).unwrap_or(Value::Null),
        Json::Text(text) => Value::String(text.clone()),
        Json::Array(items) => Value::Array(items.iter().map(value_of_tree).collect()),
        Json::Object(members) => Value::Object(
            members.iter().map(|(key, value)| (key.clone(), value_of_tree(value))).collect(),
        ),
    }
}

/// Reads a JSON document with serde_json's `from_str`. Trusted: the tree
/// depends on the text alone.
#[verifier::external_body]
pub(crate) fn read_tree(text: &str) -> (tree: Option<Json>)
    ensures
        match tree {
            Some(tree) => json_of_text(text@) == Some(tree@),
            None => json_of_text(text@) is None,
        },
{
    match serde_json::from_str::<Value>(text) {
        Ok(value) => Some(tree_of_value(&value)),
        Err(_) => None,
    }
}

/// Writes a tree as a JSON document with serde_json's `to_string`. Trusted:
/// the text depends on the tree alone.
#[verifier::external_body]
pub(crate) fn write_tree(tree: &Json) -> (text: Option<String>)
    ensures
        match text {
            Some(text) => text_of_json(tree@) == Some(text@),
            None => text_of_json(tree@) is None,
        },
{
    serde_json::to_string(&value_of_tree(tree)).ok()
}

} // verus!
