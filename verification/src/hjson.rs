//! HJSON, read by `serde_hjson`.

use crate::depth::hjson_fits;
use crate::tree::{Node, Tree, TreeView};
use serde_hjson::Value as Hjson;
use vstd::prelude::*;

verus! {

/// An HJSON value as `serde_hjson` holds it.
#[verifier::external_type_specification]
#[verifier::external_body]
pub struct ExHjsonValue(serde_hjson::Value);

/// The content of an HJSON value: null is nil, and the members of an object
/// come in the order in which its map's `iter` walks them.
pub uninterp spec fn hjson_content(value: serde_hjson::Value) -> TreeView;

/// What `serde_hjson::from_str` makes of a text: the content of the value it
/// returns, or the message of its error.
pub uninterp spec fn hjson_outcome(text: Seq<char>) -> Result<TreeView, Seq<char>>;

/// Calls `serde_hjson::from_str` for a `serde_hjson::Value`. The result
/// depends on the text alone; an error is handed on by the message that its
/// `Display` writes. Nothing is claimed of which texts are accepted.
///
/// `serde_hjson` descends by recursion and sets no limit to it: `parse_value`
/// calls itself, through the visitor of the value, once for each array and
/// object that is open. So the text must be one in which no more are ever open
/// than are read. What is open is found by `read`, which follows the parser
/// character by character:
///
/// * `from_iter` reads the text as an object without braces and, if that
///   fails, as a value;
/// * `parse_whitespace` passes blanks and the comments `#`, `//` and `/* */`;
/// * `parse_value` opens an array at `[` and an object at `{`, reads a string
///   at `"` with `parse_string`, and hands everything else to `parse_tfnns`;
/// * `parse_tfnns` ends a value with its line, and before `,`, `}`, `]` or a
///   comment only if the value is `true`, `false`, `null` or what
///   `ParseNumber::parse` takes for a number; three `'` begin a string that
///   `parse_ml_string` ends at the next three;
/// * `parse_keyname` reads a key without quotes up to its `:`;
/// * the visitors of sequences and maps pass one comma after a value.
#[verifier::external_body]
pub(crate) fn read_hjson(text: &str) -> (outcome: Result<serde_hjson::Value, String>)
    requires
        hjson_fits(text@),
    ensures
        match outcome {
            Ok(value) => hjson_outcome(text@) == Ok::<TreeView, Seq<char>>(hjson_content(value)),
            Err(message) => hjson_outcome(text@) == Err::<TreeView, Seq<char>>(message@),
        },
{
    match serde_hjson::from_str::<serde_hjson::Value>(text) {
        Ok(value) => Ok(value),
        Err(error) => Err(error.to_string()),
    }
}

/// Tells the variants of `serde_hjson::Value` apart and hands out what the
/// variant holds: a float by `f64::to_bits`, an array by its elements, an
/// object by the keys and values that its map's `iter` yields. Nothing is
/// dropped, added or reordered, so the node shows the content that
/// `hjson_content` names, child by child.
#[verifier::external_body]
pub(crate) fn hjson_node(value: &serde_hjson::Value) -> (node: Node<'_, serde_hjson::Value>)
    ensures
        node.shows(|child: serde_hjson::Value| hjson_content(child), hjson_content(*value)),
{
    match value {
        Hjson::Null => Node::Nil,
        Hjson::Bool(b) => Node::Boolean(*b),
        Hjson::I64(i) => Node::Integer(*i),
        Hjson::U64(u) => Node::Unsigned(*u),
        Hjson::F64(x) => Node::Float(x.to_bits()),
        Hjson::String(text) => Node::Text(text.clone()),
        Hjson::Array(items) => Node::List(items.iter().collect()),
        Hjson::Object(members) => Node::Table(
            members.iter().map(|(key, child)| (Some(key.clone()), child)).collect(),
        ),
    }
}

impl Tree for serde_hjson::Value {
    open spec fn content(&self) -> TreeView {
        hjson_content(*self)
    }

    fn node(&self) -> (node: Node<'_, Self>) {
        hjson_node(self)
    }
}

} // verus!
