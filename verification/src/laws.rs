//! What holds of every attempt to read a document.

use crate::depth::too_deep;
use crate::format::{result_view, uri_view, ErrorKind, FileFormat, FormatError, FormatErrorView};
use crate::registry::FormatSet;
use crate::value::{Table, ValueView};
use vstd::prelude::*;

verus! {

/// Two attempts to read the same text in the same syntax under the same
/// source identifier end alike: both give a document with the same entries in
/// the same order, or both fail with the same kind, syntax, source identifier
/// and message.
pub proof fn lemma_parse_is_repeatable(
    format: FileFormat,
    uri: Option<&String>,
    text: &str,
    first: Result<Table, FormatError>,
    second: Result<Table, FormatError>,
)
    requires
        result_view(first) == format.parsed(uri_view(uri), text@),
        result_view(second) == format.parsed(uri_view(uri), text@),
    ensures
        result_view(first) == result_view(second),
        first is Ok <==> second is Ok,
        first is Ok ==> first->Ok_0.entries_view() == second->Ok_0.entries_view() && first->Ok_0@
            == second->Ok_0@,
        first is Err ==> first->Err_0@ == second->Err_0@,
{
}

/// The source identifier decides nothing: under any two of them the same text
/// gives the same document, or fails in the same way, and a failure hands
/// back the identifier it was given.
pub proof fn lemma_uri_is_advisory(
    format: FileFormat,
    one: Option<Seq<char>>,
    other: Option<Seq<char>>,
    text: Seq<char>,
)
    ensures
        format.parsed(one, text) is Ok <==> format.parsed(other, text) is Ok,
        format.parsed(one, text) is Ok ==> format.parsed(one, text)->Ok_0 == format.parsed(
            other,
            text,
        )->Ok_0,
        format.parsed(one, text) is Err ==> {
            let a = format.parsed(one, text)->Err_0;
            let b = format.parsed(other, text)->Err_0;
            &&& a.kind == b.kind
            &&& a.format == b.format
            &&& a.message == b.message
            &&& a.uri == one
            &&& b.uri == other
        },
{
}

/// A failure to read a text in a syntax names that syntax and the source
/// identifier: no other syntax was tried in its place. Where the text nests
/// no deeper than is read, the failure is a parse failure with the message of
/// the parser or of what turned its result into a document.
pub proof fn lemma_failure_names_the_syntax(
    format: FileFormat,
    uri: Option<Seq<char>>,
    text: Seq<char>,
)
    ensures
        format.parsed(uri, text) is Err ==> {
            let error = format.parsed(uri, text)->Err_0;
            &&& error.format == format
            &&& error.uri == uri
            &&& error.kind == if format.fits(text) {
                ErrorKind::Parse
            } else {
                ErrorKind::TooDeep
            }
            &&& format.fits(text) ==> format.reading(text) == Err::<
                Seq<(Seq<char>, ValueView)>,
                Seq<char>,
            >(error.message)
        },
{
}

/// A text that nests no deeper than is read gives a document exactly when
/// its parser and what turns the parser's result into a document give one,
/// and then that one.
pub proof fn lemma_parse_follows_the_parser(
    format: FileFormat,
    uri: Option<Seq<char>>,
    text: Seq<char>,
)
    requires
        format.fits(text),
    ensures
        format.parsed(uri, text) is Ok <==> format.reading(text) is Ok,
        format.parsed(uri, text) is Ok ==> format.parsed(uri, text)->Ok_0 == format.reading(
            text,
        )->Ok_0,
        format.parsed(uri, text) is Err ==> format.parsed(uri, text)->Err_0.message
            == format.reading(text)->Err_0,
{
}

/// A request for a syntax that is switched off fails with the kind
/// `Unsupported`, whatever the text; a request for one that is switched on is
/// answered by that syntax and never fails with that kind.
pub proof fn lemma_unsupported_is_told_apart(
    set: FormatSet,
    format: FileFormat,
    uri: Option<Seq<char>>,
    text: Seq<char>,
)
    ensures
        !set.has(format) ==> set.parsed(format, uri, text) is Err && set.parsed(
            format,
            uri,
            text,
        )->Err_0.kind == ErrorKind::Unsupported && set.parsed(format, uri, text)->Err_0.format
            == format && set.parsed(format, uri, text)->Err_0.uri == uri,
        set.has(format) ==> set.parsed(format, uri, text) == format.parsed(uri, text),
        set.has(format) && set.parsed(format, uri, text) is Err ==> set.parsed(
            format,
            uri,
            text,
        )->Err_0.kind != ErrorKind::Unsupported,
{
}

/// A text that nests deeper than is read gives a failure of the kind
/// `TooDeep`, whatever else it holds; a text of TOML, JSON or INI never does.
pub proof fn lemma_deep_text_is_told_apart(
    format: FileFormat,
    uri: Option<Seq<char>>,
    text: Seq<char>,
)
    ensures
        !format.fits(text) ==> format.parsed(uri, text) == Err::<
            Seq<(Seq<char>, ValueView)>,
            FormatErrorView,
        >(FormatErrorView { kind: ErrorKind::TooDeep, format, uri, message: too_deep() }),
        format.fits(text) && format.parsed(uri, text) is Err ==> format.parsed(
            uri,
            text,
        )->Err_0.kind == ErrorKind::Parse,
        format == FileFormat::Toml || format == FileFormat::Json || format == FileFormat::Ini
            ==> format.fits(text),
{
}

} // verus!
