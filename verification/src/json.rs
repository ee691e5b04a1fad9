//! JSON, read by `serde_json`.

use crate::tree::{Node, Tree, TreeView};
use serde_json::Value as Json;
use vstd::prelude::*;

verus! {

/// A JSON value as `serde_json` holds it.
#[verifier::external_type_specification]
#[verifier::external_body]
pub struct ExJsonValue(serde_json::Value);

/// The content of a JSON value: null is nil, a number is offered as
/// `Number::as_i64` and `Number::as_f64` give it, and the members of an object
/// come in the order in which `Map::iter` walks them.
pub uninterp spec fn json_content(value: serde_json::Value) -> TreeView;

/// What `serde_json::from_str` makes of a text: the content of the value it
/// returns, or the message of its error.
pub uninterp spec fn json_outcome(text: Seq<char>) -> Result<TreeView, Seq<char>>;

/// Calls `serde_json::from_str` for a `serde_json::Value`. The result depends
/// on the text alone; an error is handed on by the message that its `Display`
/// writes. Nothing is claimed of which texts are accepted.
#[verifier::external_body]
pub(crate) fn read_json(text: &str) -> (outcome: Result<serde_json::Value, String>)
    ensures
        match outcome {
            Ok(value) => json_outcome(text@) == Ok::<TreeView, Seq<char>>(json_content(value)),
            Err(message) => json_outcome(text@) == Err::<TreeView, Seq<char>>(message@),
        },
{
    match serde_json::from_str::<serde_json::Value>(text) {
        Ok(value) => Ok(value),
        Err(error) => Err(error.to_string()),
    }
}

/// Tells the variants of `serde_json::Value` apart and hands out what the
/// variant holds: a number by `Number::as_i64` and by `Number::as_f64` with
/// `f64::to_bits`, an array by its elements, an object by the keys and values
/// that `Map::iter` yields. Nothing is dropped, added or reordered, so the
/// node shows the content that `json_content` names, child by child.
#[verifier::external_body]
pub(crate) fn json_node(value: &serde_json::Value) -> (node: Node<'_, serde_json::Value>)
    ensures
        node.shows(|child: serde_json::Value| json_content(child), json_content(*value)),
{
    match value {
        Json::Null => Node::Nil,
        Json::Bool(b) => Node::Boolean(*b),
        Json::Number(n) => Node::Number(n.as_i64(), n.as_f64().map(|x| x.to_bits())),
        Json::String(text) => Node::Text(text.clone()),
        Json::Array(items) => Node::List(items.iter().collect()),
        Json::Object(members) => Node::Table(
            members.iter().map(|(key, child)| (Some(key.clone()), child)).collect(),
        ),
    }
}

impl Tree for serde_json::Value {
    open spec fn content(&self) -> TreeView {
        json_content(*self)
    }

    fn node(&self) -> (node: Node<'_, Self>) {
        json_node(self)
    }
}

} // verus!
