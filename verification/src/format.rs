//! The syntaxes a configuration document may be written in, and the spelling
//! of its keys in every naming convention.

use crate::case::{split_words, RenameRule};
use crate::depth::{hjson_fits, hjson_within_depth, too_deep};
use crate::nesting::steps_fit;
use crate::hjson::{hjson_outcome, read_hjson};
use crate::ini::{ini_document, ini_outcome, read_ini, sections_entries};
use crate::json::{json_outcome, read_json};
use crate::toml::{read_toml, toml_outcome};
use crate::tree::{to_document, tree_document, Tree, TreeView};
use crate::value::{
    distinct_keys, entries_map, inserted, lemma_inserted, lemma_inserted_again, ConfigValue,
    Table, ValueView,
};
use crate::yaml::{
    documents_entries, not_a_table, read_yaml, yaml_document, yaml_outcome, yaml_steps,
    yaml_within_depth,
};
use vstd::prelude::*;

verus! {

/// A structured-text syntax in which a configuration document may be written.
#[derive(Debug, Clone, Copy, PartialEq, Eq, Hash, Structural)]
pub enum FileFormat {
    /// TOML
    Toml,
    /// JSON
    Json,
    /// YAML
    Yaml,
    /// HJSON
    Hjson,
    /// INI
    Ini,
}

/// Why a text gave no document.
#[derive(Debug, Clone, Copy, PartialEq, Eq, Hash, Structural)]
pub enum ErrorKind {
    /// The parser of the syntax found no document in the text.
    Parse,
    /// The text nests deeper than is read. It was not handed to the parser,
    /// which might well find a document in it.
    TooDeep,
    /// The syntax is not among those that are read.
    Unsupported,
}

/// The failure of an attempt to read a document.
#[derive(Debug, Clone, PartialEq, Eq)]
pub struct FormatError {
    /// Why the attempt failed.
    pub kind: ErrorKind,
    /// The syntax in which the text was to be read.
    pub format: FileFormat,
    /// Where the text came from, as the caller named it.
    pub uri: Option<String>,
    /// What went wrong, in words.
    pub message: String,
}

/// The content of a [`FormatError`].
pub struct FormatErrorView {
    pub kind: ErrorKind,
    pub format: FileFormat,
    pub uri: Option<Seq<char>>,
    pub message: Seq<char>,
}

impl View for FormatError {
    type V = FormatErrorView;

    open spec fn view(&self) -> FormatErrorView {
        FormatErrorView {
            kind: self.kind,
            format: self.format,
            uri: match self.uri {
                Some(uri) => Some(uri@),
                None => None,
            },
            message: self.message@,
        }
    }
}

/// The text of a source identifier, if there is one.
pub open spec fn uri_view(uri: Option<&String>) -> Option<Seq<char>> {
    match uri {
        Some(uri) => Some(uri@),
        None => None,
    }
}

/// The content of the result of an attempt to read a document.
pub open spec fn result_view(result: Result<Table, FormatError>) -> Result<
    Seq<(Seq<char>, ValueView)>,
    FormatErrorView,
> {
    match result {
        Ok(document) => Ok(document.entries_view()),
        Err(error) => Err(error@),
    }
}

/// The entries of the document that a tree stands for, or why it stands for
/// none.
pub open spec fn tree_entries(outcome: Result<TreeView, Seq<char>>) -> Result<
    Seq<(Seq<char>, ValueView)>,
    Seq<char>,
> {
    match outcome {
        Ok(tree) => match tree_document(tree) {
            Some(entries) => Ok(entries),
            None => Err(not_a_table()),
        },
        Err(message) => Err(message),
    }
}

/// Turns what a parser made of a text into a document, or says why there is
/// none.
pub fn document_from_tree<T: Tree>(outcome: Result<T, String>) -> (document: Result<Table, String>)
    ensures
        match tree_entries(
            match outcome {
                Ok(tree) => Ok(tree.content()),
                Err(message) => Err(message@),
            },
        ) {
            Ok(entries) => document is Ok && document->Ok_0.entries_view() == entries,
            Err(message) => document is Err && document->Err_0@ == message,
        },
{
    match outcome {
        Ok(tree) => match to_document(&tree) {
            Some(table) => Ok(table),
            None => Err("the root of the document is not a table".to_owned()),
        },
        Err(message) => Err(message),
    }
}

/// A file extension as it is registered: not empty, without a leading dot,
/// and without upper-case letters.
pub open spec fn is_extension(ext: Seq<char>) -> bool {
    &&& ext.len() > 0
    &&& ext[0] != '.'
    &&& forall|i: int| 0 <= i < ext.len() ==> !('A' <= #[trigger] ext[i] <= 'Z')
}

impl FileFormat {
    /// The file extensions by which this syntax is recognised, the preferred
    /// one first.
    pub open spec fn extension_list(self) -> Seq<Seq<char>> {
        match self {
            FileFormat::Toml => seq!["toml"@],
            FileFormat::Json => seq!["json"@],
            FileFormat::Yaml => seq!["yaml"@, "yml"@],
            FileFormat::Hjson => seq!["hjson"@],
            FileFormat::Ini => seq!["ini"@],
        }
    }

    /// Every syntax, in the order of declaration.
    pub open spec fn every() -> Seq<FileFormat> {
        seq![
            FileFormat::Toml,
            FileFormat::Json,
            FileFormat::Yaml,
            FileFormat::Hjson,
            FileFormat::Ini,
        ]
    }

    /// The syntaxes that this library reads: all of them.
    pub fn all() -> (formats: Vec<FileFormat>)
        ensures
            formats@ == FileFormat::every(),
            forall|format: FileFormat| formats@.contains(format),
    {
        let mut formats: Vec<FileFormat> = Vec::new();
        formats.push(FileFormat::Toml);
        formats.push(FileFormat::Json);
        formats.push(FileFormat::Yaml);
        formats.push(FileFormat::Hjson);
        formats.push(FileFormat::Ini);
        assert forall|format: FileFormat| formats@.contains(format) by {
            match format {
                FileFormat::Toml => assert(formats@[0] == format),
                FileFormat::Json => assert(formats@[1] == format),
                FileFormat::Yaml => assert(formats@[2] == format),
                FileFormat::Hjson => assert(formats@[3] == format),
                FileFormat::Ini => assert(formats@[4] == format),
            }
        }
        formats
    }

    /// Whether `text` nests no deeper than is read in this syntax. The
    /// parsers of TOML and JSON keep a limit of their own, and INI does not
    /// nest; for HJSON and YAML the nesting is that of the text as its parser
    /// reads it.
    pub open spec fn fits(self, text: Seq<char>) -> bool {
        match self {
            FileFormat::Hjson => hjson_fits(text),
            FileFormat::Yaml => steps_fit(yaml_steps(text)),
            _ => true,
        }
    }

    /// The entries of the document that `text` holds in this syntax, or the
    /// message that says why it holds none. The parser of this syntax decides,
    /// and no other is asked.
    pub open spec fn reading(self, text: Seq<char>) -> Result<
        Seq<(Seq<char>, ValueView)>,
        Seq<char>,
    > {
        match self {
            FileFormat::Toml => tree_entries(toml_outcome(text)),
            FileFormat::Json => tree_entries(json_outcome(text)),
            FileFormat::Hjson => tree_entries(hjson_outcome(text)),
            FileFormat::Yaml => match yaml_outcome(text) {
                Ok(documents) => documents_entries(documents),
                Err(message) => Err(message),
            },
            FileFormat::Ini => match ini_outcome(text) {
                Ok(sections) => Ok(sections_entries(sections, sections.len())),
                Err(message) => Err(message),
            },
        }
    }

    /// What reading `text` in this syntax gives. A text that nests no deeper
    /// than is read gives what its parser makes of it: the entries of the
    /// document, or a parse failure that carries this syntax, the source
    /// identifier and the parser's message. A text that nests deeper gives a
    /// failure of the kind `TooDeep`.
    pub open spec fn parsed(self, uri: Option<Seq<char>>, text: Seq<char>) -> Result<
        Seq<(Seq<char>, ValueView)>,
        FormatErrorView,
    > {
        if !self.fits(text) {
            Err(
                FormatErrorView {
                    kind: ErrorKind::TooDeep,
                    format: self,
                    uri,
                    message: too_deep(),
                },
            )
        } else {
            match self.reading(text) {
                Ok(entries) => Ok(entries),
                Err(message) => Err(
                    FormatErrorView { kind: ErrorKind::Parse, format: self, uri, message },
                ),
            }
        }
    }

    /// Whether `text` nests no deeper than is read in this syntax.
    pub fn within_depth(&self, text: &str) -> (fits: bool)
        ensures
            fits == self.fits(text@),
    {
        match self {
            FileFormat::Hjson => hjson_within_depth(text),
            FileFormat::Yaml => yaml_within_depth(text),
            _ => true,
        }
    }

    /// Reads `text` as a document of this syntax. `uri` says where the text
    /// came from; it is handed back in a failure and has no other effect.
    ///
    /// The text is handed to the parser of the syntax, whole and unchanged,
    /// unless it is an HJSON or YAML text that nests deeper than is read:
    /// such a text gives a failure of the kind `TooDeep` and is not parsed.
    pub fn parse(&self, uri: Option<&String>, text: &str) -> (result: Result<Table, FormatError>)
        ensures
            result_view(result) == self.parsed(uri_view(uri), text@),
    {
        if !self.within_depth(text) {
            return Err(
                FormatError {
                    kind: ErrorKind::TooDeep,
                    format: *self,
                    uri: match uri {
                        Some(uri) => Some(uri.clone()),
                        None => None,
                    },
                    message: "the text nests deeper than is read".to_owned(),
                },
            );
        }
        let reading = match self {
            FileFormat::Toml => document_from_tree(read_toml(text)),
            FileFormat::Json => document_from_tree(read_json(text)),
            FileFormat::Hjson => document_from_tree(read_hjson(text)),
            FileFormat::Yaml => match read_yaml(text) {
                Ok(documents) => yaml_document(&documents),
                Err(message) => Err(message),
            },
            FileFormat::Ini => match read_ini(text) {
                Ok(sections) => Ok(ini_document(&sections)),
                Err(message) => Err(message),
            },
        };
        self.finish(uri, reading)
    }

    /// Wraps the message of a failed reading into a parse failure of this
    /// syntax; a document passes unchanged.
    pub fn finish(&self, uri: Option<&String>, reading: Result<Table, String>) -> (result: Result<
        Table,
        FormatError,
    >)
        ensures
            match reading {
                Ok(document) => result == Ok::<Table, FormatError>(document),
                Err(message) => result is Err && result->Err_0@ == (FormatErrorView {
                    kind: ErrorKind::Parse,
                    format: *self,
                    uri: uri_view(uri),
                    message: message@,
                }),
            },
    {
        match reading {
            Ok(document) => Ok(document),
            Err(message) => Err(
                FormatError {
                    kind: ErrorKind::Parse,
                    format: *self,
                    uri: match uri {
                        Some(uri) => Some(uri.clone()),
                        None => None,
                    },
                    message,
                },
            ),
        }
    }

    /// The file extensions by which this syntax is recognised. The list is
    /// never empty, and each extension is in lower case without a leading dot.
    pub fn extensions(&self) -> (list: Vec<&'static str>)
        ensures
            list@.len() == self.extension_list().len(),
            forall|i: int|
                0 <= i < list@.len() ==> (#[trigger] list@[i])@ == self.extension_list()[i],
            list@.len() > 0,
            forall|i: int| 0 <= i < list@.len() ==> is_extension((#[trigger] list@[i])@),
    {
        let mut list: Vec<&'static str> = Vec::new();
        match self {
            FileFormat::Toml => {
                list.push("toml");
            },
            FileFormat::Json => {
                list.push("json");
            },
            FileFormat::Yaml => {
                list.push("yaml");
                list.push("yml");
            },
            FileFormat::Hjson => {
                list.push("hjson");
            },
            FileFormat::Ini => {
                list.push("ini");
            },
        }
        proof {
            lemma_extensions_are_extensions(*self);
            assert forall|i: int| 0 <= i < list@.len() implies is_extension(
                (#[trigger] list@[i])@,
            ) by {
                assert(list@[i]@ == self.extension_list()[i]);
            }
        }
        list
    }
}

/// Every syntax has at least one extension, and each of its extensions is in
/// lower case without a leading dot.
pub proof fn lemma_extensions_are_extensions(format: FileFormat)
    ensures
        format.extension_list().len() > 0,
        forall|i: int|
            0 <= i < format.extension_list().len() ==> is_extension(
                #[trigger] format.extension_list()[i],
            ),
{
    reveal_strlit("toml");
    reveal_strlit("json");
    reveal_strlit("yaml");
    reveal_strlit("yml");
    reveal_strlit("hjson");
    reveal_strlit("ini");
}

/// The mapping after `value` was put under `key` and under the form of `key`
/// in each naming convention.
pub open spec fn expanded(
    map: Map<Seq<char>, ValueView>,
    key: Seq<char>,
    value: ValueView,
) -> Map<Seq<char>, ValueView> {
    map.insert(RenameRule::CamelCase.applied(key), value).insert(
        RenameRule::KebabCase.applied(key),
        value,
    ).insert(RenameRule::LowerCase.applied(key), value).insert(
        RenameRule::PascalCase.applied(key),
        value,
    ).insert(RenameRule::ScreamingKebabCase.applied(key), value).insert(
        RenameRule::ScreamingSnakeCase.applied(key),
        value,
    ).insert(RenameRule::SnakeCase.applied(key), value).insert(
        RenameRule::UpperCase.applied(key),
        value,
    ).insert(key, value)
}

/// The entries after `value` was put under `key` and under the form of `key`
/// in each naming convention: the conventions come in the order of their
/// declaration and the key as it is written comes last. An entry that is
/// overwritten keeps its place; a new one goes to the end.
pub open spec fn expanded_list(
    entries: Seq<(Seq<char>, ValueView)>,
    key: Seq<char>,
    value: ValueView,
) -> Seq<(Seq<char>, ValueView)> {
    let camel = inserted(entries, RenameRule::CamelCase.applied(key), value);
    let kebab = inserted(camel, RenameRule::KebabCase.applied(key), value);
    let lower = inserted(kebab, RenameRule::LowerCase.applied(key), value);
    let pascal = inserted(lower, RenameRule::PascalCase.applied(key), value);
    let screaming_kebab = inserted(pascal, RenameRule::ScreamingKebabCase.applied(key), value);
    let screaming_snake = inserted(
        screaming_kebab,
        RenameRule::ScreamingSnakeCase.applied(key),
        value,
    );
    let snake = inserted(screaming_snake, RenameRule::SnakeCase.applied(key), value);
    let upper = inserted(snake, RenameRule::UpperCase.applied(key), value);
    inserted(upper, key, value)
}

/// Whether `spelling` is `key` itself or its form in one of the naming
/// conventions.
pub open spec fn is_spelling_of(spelling: Seq<char>, key: Seq<char>) -> bool {
    spelling == key || exists|rule: RenameRule| spelling == #[trigger] rule.applied(key)
}

/// Puts a copy of `value` into `map` under `key` as it is written and under
/// its form in each naming convention. An entry that stood under one of these
/// spellings is overwritten; every other entry stays.
pub fn insert_all_case_key(map: &mut Table, key: &str, value: &ConfigValue)
    ensures
        final(map)@ == expanded(old(map)@, key@, value@),
        final(map).entries_view() == expanded_list(old(map).entries_view(), key@, value@),
        forall|spelling: Seq<char>|
            is_spelling_of(spelling, key@) ==> final(map)@.contains_key(spelling)
                && final(map)@[spelling] == value@,
        forall|other: Seq<char>|
            !is_spelling_of(other, key@) ==> final(map)@.contains_key(other)
                == old(map)@.contains_key(other) && final(map)@[other] == old(map)@[other],
{
    let words = split_words(key);
    map.insert(RenameRule::CamelCase.join_words(&words), value.clone());
    map.insert(RenameRule::KebabCase.join_words(&words), value.clone());
    map.insert(RenameRule::LowerCase.join_words(&words), value.clone());
    map.insert(RenameRule::PascalCase.join_words(&words), value.clone());
    map.insert(RenameRule::ScreamingKebabCase.join_words(&words), value.clone());
    map.insert(RenameRule::ScreamingSnakeCase.join_words(&words), value.clone());
    map.insert(RenameRule::SnakeCase.join_words(&words), value.clone());
    map.insert(RenameRule::UpperCase.join_words(&words), value.clone());
    map.insert(key.to_owned(), value.clone());
    proof {
        lemma_expanded_entries(old(map)@, key@, value@);
    }
}

/// The mapping that the first `n` of `entries` give when each in turn is put
/// into an empty mapping under every spelling of its key.
pub open spec fn expanded_entries(entries: Seq<(Seq<char>, ValueView)>, n: nat) -> Map<
    Seq<char>,
    ValueView,
>
    decreases n,
{
    if n == 0 || n > entries.len() {
        Map::empty()
    } else {
        expanded(expanded_entries(entries, (n - 1) as nat), entries[n - 1].0, entries[n - 1].1)
    }
}

/// The entries that the first `n` of `entries` give when each in turn is put
/// into an empty table under every spelling of its key.
pub open spec fn expanded_entries_list(entries: Seq<(Seq<char>, ValueView)>, n: nat) -> Seq<
    (Seq<char>, ValueView),
>
    decreases n,
{
    if n == 0 || n > entries.len() {
        Seq::empty()
    } else {
        expanded_list(
            expanded_entries_list(entries, (n - 1) as nat),
            entries[n - 1].0,
            entries[n - 1].1,
        )
    }
}

/// The table that holds every entry of `document` under every spelling of its
/// key. The entries are taken in order, so where two keys share a spelling the
/// later entry gives its value.
pub fn normalize(document: &Table) -> (normalized: Table)
    ensures
        normalized@ == expanded_entries(document.entries_view(), document.entries_view().len()),
        normalized.entries_view() == expanded_entries_list(
            document.entries_view(),
            document.entries_view().len(),
        ),
{
    let mut normalized = Table::new();
    let mut i: usize = 0;
    while i < document.len()
        invariant
            i <= document.entries_view().len(),
            normalized@ == expanded_entries(document.entries_view(), i as nat),
            normalized.entries_view() == expanded_entries_list(document.entries_view(), i as nat),
        decreases document.entries_view().len() - i,
    {
        insert_all_case_key(&mut normalized, document.key_at(i).as_str(), document.value_at(i));
        i += 1;
    }
    normalized
}

/// After the expansion every spelling of the key leads to the value, and
/// nothing else has changed.
pub proof fn lemma_expanded_entries(
    map: Map<Seq<char>, ValueView>,
    key: Seq<char>,
    value: ValueView,
)
    ensures
        forall|spelling: Seq<char>|
            is_spelling_of(spelling, key) ==> expanded(map, key, value).contains_key(spelling)
                && expanded(map, key, value)[spelling] == value,
        forall|other: Seq<char>|
            !is_spelling_of(other, key) ==> expanded(map, key, value).contains_key(other)
                == map.contains_key(other) && expanded(map, key, value)[other] == map[other],
{
}

/// Expanding the same key with the same value a second time changes nothing.
pub proof fn lemma_expanded_twice(
    map: Map<Seq<char>, ValueView>,
    key: Seq<char>,
    value: ValueView,
)
    ensures
        expanded(expanded(map, key, value), key, value) == expanded(map, key, value),
{
    let once = expanded(map, key, value);
    let twice = expanded(once, key, value);
    lemma_expanded_entries(map, key, value);
    lemma_expanded_entries(once, key, value);
    assert(twice =~= once);
}

/// Expanding the same key with the same value a second time leaves the
/// entries as they are, their order included.
pub proof fn lemma_expanded_list_twice(
    entries: Seq<(Seq<char>, ValueView)>,
    key: Seq<char>,
    value: ValueView,
)
    requires
        distinct_keys(entries),
    ensures
        distinct_keys(expanded_list(entries, key, value)),
        entries_map(expanded_list(entries, key, value)) == expanded(
            entries_map(entries),
            key,
            value,
        ),
        expanded_list(expanded_list(entries, key, value), key, value) == expanded_list(
            entries,
            key,
            value,
        ),
{
    let camel = inserted(entries, RenameRule::CamelCase.applied(key), value);
    lemma_inserted(entries, RenameRule::CamelCase.applied(key), value);
    let kebab = inserted(camel, RenameRule::KebabCase.applied(key), value);
    lemma_inserted(camel, RenameRule::KebabCase.applied(key), value);
    let lower = inserted(kebab, RenameRule::LowerCase.applied(key), value);
    lemma_inserted(kebab, RenameRule::LowerCase.applied(key), value);
    let pascal = inserted(lower, RenameRule::PascalCase.applied(key), value);
    lemma_inserted(lower, RenameRule::PascalCase.applied(key), value);
    let screaming_kebab = inserted(pascal, RenameRule::ScreamingKebabCase.applied(key), value);
    lemma_inserted(pascal, RenameRule::ScreamingKebabCase.applied(key), value);
    let screaming_snake = inserted(
        screaming_kebab,
        RenameRule::ScreamingSnakeCase.applied(key),
        value,
    );
    lemma_inserted(screaming_kebab, RenameRule::ScreamingSnakeCase.applied(key), value);
    let snake = inserted(screaming_snake, RenameRule::SnakeCase.applied(key), value);
    lemma_inserted(screaming_snake, RenameRule::SnakeCase.applied(key), value);
    let upper = inserted(snake, RenameRule::UpperCase.applied(key), value);
    lemma_inserted(snake, RenameRule::UpperCase.applied(key), value);
    let once = inserted(upper, key, value);
    lemma_inserted(upper, key, value);
    assert(once == expanded_list(entries, key, value));
    lemma_inserted_again(once, RenameRule::CamelCase.applied(key), value);
    lemma_inserted_again(once, RenameRule::KebabCase.applied(key), value);
    lemma_inserted_again(once, RenameRule::LowerCase.applied(key), value);
    lemma_inserted_again(once, RenameRule::PascalCase.applied(key), value);
    lemma_inserted_again(once, RenameRule::ScreamingKebabCase.applied(key), value);
    lemma_inserted_again(once, RenameRule::ScreamingSnakeCase.applied(key), value);
    lemma_inserted_again(once, RenameRule::SnakeCase.applied(key), value);
    lemma_inserted_again(once, RenameRule::UpperCase.applied(key), value);
    lemma_inserted_again(once, key, value);
}

} // verus!
