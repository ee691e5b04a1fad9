//! YAML, read by `yaml_rust`.

use crate::nesting::{lemma_too_deep_stays, steps_fit, walk, Step, Walk};
use crate::tree::{to_document, tree_document, Node, Tree, TreeView};
use crate::value::{Table, ValueView};
use vstd::prelude::*;
use yaml_rust::parser::Event;
use yaml_rust::Yaml;

verus! {

/// A YAML node as `yaml_rust` holds it.
#[verifier::external_type_specification]
#[verifier::external_body]
pub struct ExYaml(yaml_rust::Yaml);

/// The content of a YAML node: a real is offered as `Yaml::as_f64` gives it,
/// the entries of a hash come in the order in which its map's `iter` walks
/// them, each with the key that `Yaml::as_str` gives, a null is nil, and an
/// alias and a bad value are what they are.
pub uninterp spec fn yaml_content(node: yaml_rust::Yaml) -> TreeView;

/// What `YamlLoader::load_from_str` makes of a text: the contents of the
/// documents it returns, or the message of its error.
pub uninterp spec fn yaml_outcome(text: Seq<char>) -> Result<Seq<TreeView>, Seq<char>>;

/// The parser of `yaml_rust` over the characters of a text.
#[verifier::external_type_specification]
#[verifier::external_body]
#[verifier::reject_recursive_types(T)]
pub struct ExYamlParser<T>(yaml_rust::parser::Parser<T>);

/// The events that `Parser::next` yields for a text, call after call, up to
/// the end of the stream or to the first error, which is the last element.
pub uninterp spec fn yaml_steps(text: Seq<char>) -> Seq<Result<Step, Seq<char>>>;

/// The events that a parser has yet to yield.
pub uninterp spec fn steps_left(
    parser: yaml_rust::parser::Parser<std::vec::IntoIter<char>>,
) -> Seq<Result<Step, Seq<char>>>;

/// Whether an element ends the events of a text.
pub open spec fn is_last_step(step: Result<Step, Seq<char>>) -> bool {
    step is Err || step == Ok::<Step, Seq<char>>(Step::StreamEnd)
}

/// Whether a sequence of events ends where it should: at its last element
/// and nowhere before.
pub open spec fn well_ended(steps: Seq<Result<Step, Seq<char>>>) -> bool {
    &&& steps.len() > 0
    &&& forall|i: int| 0 <= i < steps.len() ==> (is_last_step(#[trigger] steps[i]) <==> i
        == steps.len() - 1)
}

/// The content of what a call for the next event gave.
pub open spec fn step_view(step: Result<Step, String>) -> Result<Step, Seq<char>> {
    match step {
        Ok(step) => Ok(step),
        Err(message) => Err(message@),
    }
}

/// Calls `Parser::new` on the characters of the text. The parser has yet to
/// yield all the events of the text; a text has at least one event, and its
/// events end with the end of the stream or with an error.
#[verifier::external_body]
pub(crate) fn yaml_parser(text: &str) -> (parser: yaml_rust::parser::Parser<
    std::vec::IntoIter<char>,
>)
    ensures
        steps_left(parser) == yaml_steps(text@),
        well_ended(steps_left(parser)),
{
    yaml_rust::parser::Parser::new(text.chars().collect::<Vec<char>>().into_iter())
}

/// Calls `Parser::next`, which takes no recursion, and hands out the event
/// variant by variant, or the message of the error.
#[verifier::external_body]
pub(crate) fn next_step(parser: &mut yaml_rust::parser::Parser<std::vec::IntoIter<char>>) -> (step:
    Result<Step, String>)
    requires
        steps_left(*old(parser)).len() > 0,
    ensures
        step_view(step) == steps_left(*old(parser))[0],
        steps_left(*final(parser)) == steps_left(*old(parser)).drop_first(),
{
    Ok(match parser.next().map_err(|error| error.to_string())?.0 {
        Event::Nothing => Step::Nothing,
        Event::StreamStart => Step::StreamStart,
        Event::StreamEnd => Step::StreamEnd,
        Event::DocumentStart => Step::DocumentStart,
        Event::DocumentEnd => Step::DocumentEnd,
        Event::Alias(id) => Step::Alias(id),
        Event::Scalar(_, _, id, _) => Step::Scalar(id),
        Event::SequenceStart(id) => Step::SequenceStart(id),
        Event::SequenceEnd => Step::SequenceEnd,
        Event::MappingStart(id) => Step::MappingStart(id),
        Event::MappingEnd => Step::MappingEnd,
    })
}

/// Whether a YAML text nests no deeper than is read, found from its events.
pub fn yaml_within_depth(text: &str) -> (fits: bool)
    ensures
        fits == steps_fit(yaml_steps(text@)),
{
    let mut parser = yaml_parser(text);
    let mut state = Walk::new();
    let ghost all = yaml_steps(text@);
    let ghost mut k: nat = 0;
    loop
        invariant
            all == yaml_steps(text@),
            well_ended(all),
            k < all.len(),
            steps_left(parser) == all.skip(k as int),
            state@ == walk(all, k),
        decreases all.len() - k,
    {
        assert(all.skip(k as int)[0] == all[k as int]);
        assert(all.skip(k as int).drop_first() =~= all.skip((k + 1) as int));
        let step = next_step(&mut parser);
        match step {
            Err(_) => {
                return !state.too_deep;
            },
            Ok(step) => {
                state.step(step);
                if state.too_deep {
                    proof {
                        lemma_too_deep_stays(all, k + 1, all.len());
                    }
                    return false;
                }
                match step {
                    Step::StreamEnd => {
                        return true;
                    },
                    _ => {},
                }
                proof {
                    k = k + 1;
                }
            },
        }
    }
}

/// The contents of a sequence of YAML documents.
pub open spec fn yaml_contents(documents: Seq<yaml_rust::Yaml>) -> Seq<TreeView> {
    Seq::new(documents.len(), |i: int| yaml_content(documents[i]))
}

/// Calls `YamlLoader::load_from_str`. The result depends on the text alone; an
/// error is handed on by the message that its `Display` writes. Nothing is
/// claimed of which texts are accepted.
///
/// The loader descends by recursion: `Parser::load_node` calls itself once
/// for each collection that is open, fed by the events that `Parser::next`
/// yields, and `YamlLoader` puts a copy of the anchored node in the place of
/// an alias. The scanner limits the nesting of flow collections only. So the
/// text must be one whose events nest no deeper than is read. (The loader
/// forgets the anchors of a document when the next begins, which can only
/// end its reading earlier.)
#[verifier::external_body]
pub(crate) fn read_yaml(text: &str) -> (outcome: Result<Vec<yaml_rust::Yaml>, String>)
    requires
        steps_fit(yaml_steps(text@)),
    ensures
        match outcome {
            Ok(documents) => yaml_outcome(text@) == Ok::<Seq<TreeView>, Seq<char>>(
                yaml_contents(documents@),
            ),
            Err(message) => yaml_outcome(text@) == Err::<Seq<TreeView>, Seq<char>>(message@),
        },
{
    match yaml_rust::YamlLoader::load_from_str(text) {
        Ok(documents) => Ok(documents),
        Err(error) => Err(error.to_string()),
    }
}

/// Tells the variants of `yaml_rust::Yaml` apart and hands out what the
/// variant holds: a real by `Yaml::as_f64` with `f64::to_bits`, an array by
/// its elements, a hash by the keys and values that its map's `iter` yields,
/// each key by `Yaml::as_str`. Nothing is dropped, added or reordered, so the
/// node shows the content that `yaml_content` names, child by child.
#[verifier::external_body]
pub(crate) fn yaml_node(node: &yaml_rust::Yaml) -> (shown: Node<'_, yaml_rust::Yaml>)
    ensures
        shown.shows(|child: yaml_rust::Yaml| yaml_content(child), yaml_content(*node)),
{
    match node {
        Yaml::Real(_) => Node::Number(None, node.as_f64().map(|x| x.to_bits())),
        Yaml::Integer(i) => Node::Integer(*i),
        Yaml::String(text) => Node::Text(text.clone()),
        Yaml::Boolean(b) => Node::Boolean(*b),
        Yaml::Array(items) => Node::List(items.iter().collect()),
        Yaml::Hash(entries) => Node::Table(
            entries.iter().map(|(key, child)| (key.as_str().map(|k| k.to_string()), child)).collect(),
        ),
        Yaml::Alias(id) => Node::Alias(*id),
        Yaml::Null => Node::Nil,
        Yaml::BadValue => Node::Invalid,
    }
}

impl Tree for yaml_rust::Yaml {
    open spec fn content(&self) -> TreeView {
        yaml_content(*self)
    }

    fn node(&self) -> (node: Node<'_, Self>) {
        yaml_node(self)
    }
}

/// Why a text with several YAML documents is refused.
pub open spec fn several_documents() -> Seq<char> {
    "the text holds more than one YAML document"@
}

/// Why a document whose top is no table is refused.
pub open spec fn not_a_table() -> Seq<char> {
    "the root of the document is not a table"@
}

/// The entries of the document that a sequence of YAML documents stands for,
/// or why it stands for none. No document at all is the empty document; one
/// document is read as a tree; more than one is refused.
pub open spec fn documents_entries(documents: Seq<TreeView>) -> Result<
    Seq<(Seq<char>, ValueView)>,
    Seq<char>,
> {
    if documents.len() == 0 {
        Ok(Seq::empty())
    } else if documents.len() == 1 {
        match tree_document(documents[0]) {
            Some(entries) => Ok(entries),
            None => Err(not_a_table()),
        }
    } else {
        Err(several_documents())
    }
}

/// Turns the documents of a YAML text into one configuration document.
pub fn yaml_document(documents: &Vec<yaml_rust::Yaml>) -> (outcome: Result<Table, String>)
    ensures
        match documents_entries(yaml_contents(documents@)) {
            Ok(entries) => outcome is Ok && outcome->Ok_0.entries_view() == entries,
            Err(message) => outcome is Err && outcome->Err_0@ == message,
        },
{
    if documents.len() == 0 {
        Ok(Table::new())
    } else if documents.len() == 1 {
        match to_document(&documents[0]) {
            Some(table) => Ok(table),
            None => Err("the root of the document is not a table".to_owned()),
        }
    } else {
        Err("the text holds more than one YAML document".to_owned())
    }
}

} // verus!
