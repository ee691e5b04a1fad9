//! TOML, read by `toml`.

use crate::tree::{Node, Tree, TreeView};
use toml::Value as Toml;
use vstd::prelude::*;

verus! {

/// A TOML value as `toml` holds it.
#[verifier::external_type_specification]
#[verifier::external_body]
pub struct ExTomlValue(toml::Value);

/// The content of a TOML value: a date or time is the text that its `Display`
/// writes, and the fields of a table come in the order in which `Map::iter`
/// walks them.
pub uninterp spec fn toml_content(value: toml::Value) -> TreeView;

/// What `toml::from_str` makes of a text: the content of the value it returns,
/// or the message of its error.
pub uninterp spec fn toml_outcome(text: Seq<char>) -> Result<TreeView, Seq<char>>;

/// Calls `toml::from_str` for a `toml::Value`. The result depends on the text
/// alone; an error is handed on by the message that its `Display` writes.
/// Nothing is claimed of which texts are accepted.
#[verifier::external_body]
pub(crate) fn read_toml(text: &str) -> (outcome: Result<toml::Value, String>)
    ensures
        match outcome {
            Ok(value) => toml_outcome(text@) == Ok::<TreeView, Seq<char>>(toml_content(value)),
            Err(message) => toml_outcome(text@) == Err::<TreeView, Seq<char>>(message@),
        },
{
    match toml::from_str::<toml::Value>(text) {
        Ok(value) => Ok(value),
        Err(error) => Err(error.to_string()),
    }
}

/// Tells the variants of `toml::Value` apart and hands out what the variant
/// holds: a float by `f64::to_bits`, a date or time by the text that its
/// `Display` writes, an array by its elements, a table by the keys and values
/// that `Map::iter` yields. Nothing is dropped, added or reordered, so the
/// node shows the content that `toml_content` names, child by child.
#[verifier::external_body]
pub(crate) fn toml_node(value: &toml::Value) -> (node: Node<'_, toml::Value>)
    ensures
        node.shows(|child: toml::Value| toml_content(child), toml_content(*value)),
{
    match value {
        Toml::String(text) => Node::Text(text.clone()),
        Toml::Integer(i) => Node::Integer(*i),
        Toml::Float(x) => Node::Float(x.to_bits()),
        Toml::Boolean(b) => Node::Boolean(*b),
        Toml::Datetime(when) => Node::Text(when.to_string()),
        Toml::Array(items) => Node::List(items.iter().collect()),
        Toml::Table(fields) => Node::Table(
            fields.iter().map(|(key, child)| (Some(key.clone()), child)).collect(),
        ),
    }
}

impl Tree for toml::Value {
    open spec fn content(&self) -> TreeView {
        toml_content(*self)
    }

    fn node(&self) -> (node: Node<'_, Self>) {
        toml_node(self)
    }
}

} // verus!
