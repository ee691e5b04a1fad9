//! INI, read by `ini`.

use crate::value::{inserted, ConfigValue, Table, ValueView};
use vstd::prelude::*;

verus! {

/// The content of one section of an INI document: its name, if it has one,
/// and its properties in order, each a key and a value.
pub type SectionView = (Option<Seq<char>>, Seq<(Seq<char>, Seq<char>)>);

/// What `Ini::load_from_str` makes of a text: the sections of the document it
/// returns, in the order in which `Ini::iter` walks them, each with its
/// properties in the order in which `Properties::iter` walks them; or the
/// message of its error.
pub uninterp spec fn ini_outcome(text: Seq<char>) -> Result<Seq<SectionView>, Seq<char>>;

/// The content of a property.
pub open spec fn property_view(property: (String, String)) -> (Seq<char>, Seq<char>) {
    (property.0@, property.1@)
}

/// The content of a section.
pub open spec fn section_view(section: (Option<String>, Vec<(String, String)>)) -> SectionView {
    (
        match section.0 {
            Some(name) => Some(name@),
            None => None,
        },
        Seq::new(section.1@.len(), |i: int| property_view(section.1@[i])),
    )
}

/// The contents of a sequence of sections.
pub open spec fn section_views(sections: Seq<(Option<String>, Vec<(String, String)>)>) -> Seq<
    SectionView,
> {
    Seq::new(sections.len(), |i: int| section_view(sections[i]))
}

/// Calls `Ini::load_from_str` and copies out what `Ini::iter` yields, and for
/// each section what `Properties::iter` yields. The result depends on the text
/// alone; an error is handed on by the message that its `Display` writes.
/// Nothing is claimed of which texts are accepted.
#[verifier::external_body]
pub(crate) fn read_ini(text: &str) -> (outcome: Result<
    Vec<(Option<String>, Vec<(String, String)>)>,
    String,
>)
    ensures
        match outcome {
            Ok(sections) => ini_outcome(text@) == Ok::<Seq<SectionView>, Seq<char>>(
                section_views(sections@),
            ),
            Err(message) => ini_outcome(text@) == Err::<Seq<SectionView>, Seq<char>>(message@),
        },
{
    match ini::Ini::load_from_str(text) {
        Ok(document) => Ok(
            document.iter().map(
                |(name, properties)|
                    (
                        name.map(|n| n.to_string()),
                        properties.iter().map(|(k, v)| (k.to_string(), v.to_string())).collect(),
                    ),
            ).collect(),
        ),
        Err(error) => Err(error.to_string()),
    }
}

/// The entries after the first `n` of `properties` were put into `entries`,
/// each as a string under its key.
pub open spec fn with_properties(
    entries: Seq<(Seq<char>, ValueView)>,
    properties: Seq<(Seq<char>, Seq<char>)>,
    n: nat,
) -> Seq<(Seq<char>, ValueView)>
    decreases n,
{
    if n == 0 || n > properties.len() {
        entries
    } else {
        inserted(
            with_properties(entries, properties, (n - 1) as nat),
            properties[n - 1].0,
            ValueView::String(properties[n - 1].1),
        )
    }
}

/// The entries of the document that the first `n` of `sections` give. The
/// properties of a section without a name stand in the document itself; a
/// section with a name is a table under that name. Later entries replace
/// earlier ones with the same key.
pub open spec fn sections_entries(sections: Seq<SectionView>, n: nat) -> Seq<
    (Seq<char>, ValueView),
>
    decreases n,
{
    if n == 0 || n > sections.len() {
        Seq::empty()
    } else {
        let before = sections_entries(sections, (n - 1) as nat);
        let properties = sections[n - 1].1;
        match sections[n - 1].0 {
            Some(name) => inserted(
                before,
                name,
                ValueView::Table(with_properties(Seq::empty(), properties, properties.len())),
            ),
            None => with_properties(before, properties, properties.len()),
        }
    }
}

/// Puts each property into `table` as a string under its key.
fn insert_properties(table: &mut Table, properties: &Vec<(String, String)>)
    ensures
        final(table).entries_view() == with_properties(
            old(table).entries_view(),
            Seq::new(properties@.len(), |i: int| property_view(properties@[i])),
            properties@.len(),
        ),
{
    let ghost start = table.entries_view();
    let ghost views = Seq::new(properties@.len(), |i: int| property_view(properties@[i]));
    let mut i: usize = 0;
    while i < properties.len()
        invariant
            i <= properties@.len(),
            views == Seq::new(properties@.len(), |i: int| property_view(properties@[i])),
            table.entries_view() == with_properties(start, views, i as nat),
        decreases properties@.len() - i,
    {
        table.insert(properties[i].0.clone(), ConfigValue::String(properties[i].1.clone()));
        i += 1;
    }
}

/// Turns the sections of an INI text into a configuration document.
pub fn ini_document(sections: &Vec<(Option<String>, Vec<(String, String)>)>) -> (document: Table)
    ensures
        document.entries_view() == sections_entries(
            section_views(sections@),
            sections@.len(),
        ),
{
    let ghost views = section_views(sections@);
    let mut document = Table::new();
    let mut i: usize = 0;
    while i < sections.len()
        invariant
            i <= sections@.len(),
            views == section_views(sections@),
            document.entries_view() == sections_entries(views, i as nat),
        decreases sections@.len() - i,
    {
        match &sections[i].0 {
            Some(name) => {
                let mut section = Table::new();
                insert_properties(&mut section, &sections[i].1);
                document.insert(name.clone(), ConfigValue::Table(section));
            },
            None => {
                insert_properties(&mut document, &sections[i].1);
            },
        }
        i += 1;
    }
    document
}

} // verus!
