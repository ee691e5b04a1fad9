//! From the tree that a parser hands out to the values of this library.
//!
//! Each parser keeps a document in a tree of its own. Such a tree is read one
//! node at a time: a node shows what it holds and where its children are.

use crate::value::{inserted, Table, ConfigValue, ValueView};
use vstd::prelude::*;

verus! {

/// The content of a parser's tree.
pub enum TreeView {
    /// No value.
    Nil,
    Boolean(bool),
    /// A signed integer.
    Integer(i64),
    /// An unsigned integer.
    Unsigned(u64),
    /// A floating-point number, by its IEEE 754 binary64 bit pattern.
    Float(u64),
    /// A number that the parser offers as an integer, as a floating-point
    /// number, as both or as neither.
    Number(Option<i64>, Option<u64>),
    Text(Seq<char>),
    List(Seq<TreeView>),
    /// Fields in the order in which the parser hands them out. A field whose
    /// key is no text has no key here.
    Table(Seq<(Option<Seq<char>>, TreeView)>),
    /// A reference, by its number, to a node that the parser did not put in
    /// its place.
    Alias(usize),
    /// What the parser hands out where it has no value to give.
    Invalid,
}

/// One node of a parser's tree, with its children still in that tree.
pub enum Node<'a, T> {
    Nil,
    Boolean(bool),
    Integer(i64),
    Unsigned(u64),
    Float(u64),
    Number(Option<i64>, Option<u64>),
    Text(String),
    List(Vec<&'a T>),
    Table(Vec<(Option<String>, &'a T)>),
    Alias(usize),
    Invalid,
}

/// A tree that a parser hands out.
pub trait Tree: Sized {
    /// The content of the tree under this node.
    spec fn content(&self) -> TreeView;

    /// What this node holds.
    fn node(&self) -> (node: Node<'_, Self>)
        ensures
            node.shows(|child: Self| child.content(), self.content()),
    ;
}

/// The text of a key, if it has one.
pub open spec fn key_view(key: Option<String>) -> Option<Seq<char>> {
    match key {
        Some(text) => Some(text@),
        None => None,
    }
}

impl<'a, T> Node<'a, T> {
    /// Whether this node is the top of a tree with the content `tree`, where
    /// `content_of` gives the content of the tree under each child.
    pub open spec fn shows(self, content_of: spec_fn(T) -> TreeView, tree: TreeView) -> bool {
        match self {
            Node::Nil => tree == TreeView::Nil,
            Node::Boolean(b) => tree == TreeView::Boolean(b),
            Node::Integer(i) => tree == TreeView::Integer(i),
            Node::Unsigned(u) => tree == TreeView::Unsigned(u),
            Node::Float(bits) => tree == TreeView::Float(bits),
            Node::Number(integer, float) => tree == TreeView::Number(integer, float),
            Node::Text(text) => tree == TreeView::Text(text@),
            Node::List(children) => {
                &&& tree is List
                &&& tree->List_0.len() == children@.len()
                &&& forall|i: int|
                    0 <= i < children@.len() ==> content_of(*#[trigger] children@[i])
                        == tree->List_0[i]
            },
            Node::Table(fields) => {
                &&& tree is Table
                &&& tree->Table_0.len() == fields@.len()
                &&& forall|i: int|
                    0 <= i < fields@.len() ==> key_view((#[trigger] fields@[i]).0)
                        == tree->Table_0[i].0 && content_of(*fields@[i].1) == tree->Table_0[i].1
            },
            Node::Alias(id) => tree == TreeView::Alias(id),
            Node::Invalid => tree == TreeView::Invalid,
        }
    }
}

/// The signed integer with the bit pattern of `u`.
pub open spec fn reinterpreted(u: u64) -> i64 {
    if u <= i64::MAX {
        u as i64
    } else {
        (u - 0x1_0000_0000_0000_0000) as i64
    }
}

/// The value that a tree stands for.
///
/// * An unsigned integer becomes the signed integer with the same bit pattern.
/// * A number that the parser offers as an integer is that integer; offered
///   only as a floating-point number it is that; offered as neither it is nil.
/// * The fields of a table are entered in order, so of two fields with one key
///   the later gives the value. A field without a key is left out.
/// * A reference that the parser left in place of a node, and what it hands
///   out where it has no value, are nil.
pub open spec fn tree_value(tree: TreeView) -> ValueView
    decreases tree, 0nat,
{
    match tree {
        TreeView::Nil => ValueView::Nil,
        TreeView::Boolean(b) => ValueView::Boolean(b),
        TreeView::Integer(i) => ValueView::Integer(i),
        TreeView::Unsigned(u) => ValueView::Integer(reinterpreted(u)),
        TreeView::Float(bits) => ValueView::Float(bits),
        TreeView::Number(Some(i), _) => ValueView::Integer(i),
        TreeView::Number(None, Some(bits)) => ValueView::Float(bits),
        TreeView::Number(None, None) => ValueView::Nil,
        TreeView::Text(text) => ValueView::String(text),
        TreeView::List(items) => ValueView::Array(
            Seq::new(
                items.len(),
                |i: int|
                    if 0 <= i < items.len() {
                        tree_value(items[i])
                    } else {
                        ValueView::Nil
                    },
            ),
        ),
        TreeView::Table(fields) => ValueView::Table(table_entries(fields, fields.len())),
        TreeView::Alias(_) => ValueView::Nil,
        TreeView::Invalid => ValueView::Nil,
    }
}

/// The entries that the first `n` fields of a table give.
pub open spec fn table_entries(fields: Seq<(Option<Seq<char>>, TreeView)>, n: nat) -> Seq<
    (Seq<char>, ValueView),
>
    decreases fields, n,
{
    if n == 0 || n > fields.len() {
        Seq::empty()
    } else {
        let before = table_entries(fields, (n - 1) as nat);
        match fields[n - 1].0 {
            Some(key) => inserted(before, key, tree_value(fields[n - 1].1)),
            None => before,
        }
    }
}

/// The entries of the document that a tree stands for: those of its top
/// table. A tree whose top is no table stands for no document.
pub open spec fn tree_document(tree: TreeView) -> Option<Seq<(Seq<char>, ValueView)>> {
    match tree {
        TreeView::Table(fields) => Some(table_entries(fields, fields.len())),
        _ => None,
    }
}

/// Turns a parser's tree into a value.
pub fn to_value<T: Tree>(tree: &T) -> (value: ConfigValue)
    ensures
        value@ == tree_value(tree.content()),
    decreases tree.content(),
{
    let ghost content = tree.content();
    match tree.node() {
        Node::Nil => ConfigValue::Nil,
        Node::Boolean(b) => ConfigValue::Boolean(b),
        Node::Integer(i) => ConfigValue::Integer(i),
        Node::Unsigned(u) => {
            assert(u as i64 == reinterpreted(u)) by (bit_vector);
            ConfigValue::Integer(
                #[verifier::truncate]
                (u as i64),
            )
        },
        Node::Float(bits) => ConfigValue::Float(bits),
        Node::Number(integer, float) => match integer {
            Some(i) => ConfigValue::Integer(i),
            None => match float {
                Some(bits) => ConfigValue::Float(bits),
                None => ConfigValue::Nil,
            },
        },
        Node::Text(text) => ConfigValue::String(text),
        Node::Alias(_) => ConfigValue::Nil,
        Node::Invalid => ConfigValue::Nil,
        Node::List(children) => {
            let ghost items = content->List_0;
            let mut values: Vec<ConfigValue> = Vec::new();
            let mut i: usize = 0;
            while i < children.len()
                invariant
                    content == tree.content(),
                    content is List,
                    items == content->List_0,
                    items.len() == children@.len(),
                    forall|j: int|
                        0 <= j < children@.len() ==> (#[trigger] children@[j]).content()
                            == items[j],
                    i <= children@.len(),
                    values@.len() == i,
                    forall|j: int| 0 <= j < i ==> (#[trigger] values@[j])@ == tree_value(items[j]),
                decreases children@.len() - i,
            {
                values.push(to_value(children[i]));
                i += 1;
            }
            let value = ConfigValue::Array(values);
            assert(value@->Array_0 =~= tree_value(content)->Array_0);
            value
        },
        Node::Table(fields) => {
            let ghost entries = content->Table_0;
            let mut table = Table::new();
            let mut i: usize = 0;
            while i < fields.len()
                invariant
                    content == tree.content(),
                    content is Table,
                    entries == content->Table_0,
                    entries.len() == fields@.len(),
                    forall|j: int|
                        0 <= j < fields@.len() ==> key_view((#[trigger] fields@[j]).0)
                            == entries[j].0 && fields@[j].1.content() == entries[j].1,
                    i <= fields@.len(),
                    table.entries_view() == table_entries(entries, i as nat),
                decreases fields@.len() - i,
            {
                match &fields[i].0 {
                    Some(key) => {
                        let value = to_value(fields[i].1);
                        table.insert(key.clone(), value);
                    },
                    None => {},
                }
                i += 1;
            }
            ConfigValue::Table(table)
        },
    }
}

/// Turns a parser's tree into a document, if the top of the tree is a table.
pub fn to_document<T: Tree>(tree: &T) -> (document: Option<Table>)
    ensures
        match tree_document(tree.content()) {
            Some(entries) => document is Some && document->0.entries_view() == entries,
            None => document is None,
        },
{
    match to_value(tree) {
        ConfigValue::Table(table) => Some(table),
        _ => None,
    }
}

} // verus!
