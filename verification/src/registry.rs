//! The syntaxes that a deployment admits.
//!
//! Every syntax can be read, but a deployment may admit only some of them. A
//! `FormatSet` holds one switch for each syntax; a request for a syntax whose
//! switch is off is answered with a failure of its own kind, and the text is
//! not looked at.

use crate::case::{styled, to_lower_case, Letters};
use crate::format::{result_view, uri_view, ErrorKind, FileFormat, FormatError, FormatErrorView};
use crate::value::{Table, ValueView};
use vstd::prelude::*;

verus! {

/// One switch for each syntax.
#[derive(Debug, Clone, Copy, PartialEq, Eq, Hash, Structural)]
pub struct FormatSet {
    pub toml: bool,
    pub json: bool,
    pub yaml: bool,
    pub hjson: bool,
    pub ini: bool,
}

/// What a request for a syntax that is switched off is told.
pub open spec fn unsupported_message() -> Seq<char> {
    "the syntax is not among those that are read"@
}

/// The place of a syntax in the order of declaration.
pub open spec fn place(format: FileFormat) -> int {
    match format {
        FileFormat::Toml => 0,
        FileFormat::Json => 1,
        FileFormat::Yaml => 2,
        FileFormat::Hjson => 3,
        FileFormat::Ini => 4,
    }
}

/// Whether `extension`, read without regard to the case of its ASCII letters,
/// is one of the extensions of `format`.
pub open spec fn has_extension(format: FileFormat, extension: Seq<char>) -> bool {
    format.extension_list().contains(styled(Letters::Lower, extension))
}

/// Whether `extension`, read without regard to the case of its ASCII letters,
/// is one of the extensions of `format`.
pub fn recognises(format: FileFormat, extension: &str) -> (yes: bool)
    ensures
        yes == has_extension(format, extension@),
{
    let lowered = to_lower_case(extension);
    let list = format.extensions();
    let mut i: usize = 0;
    while i < list.len()
        invariant
            i <= list@.len(),
            list@.len() == format.extension_list().len(),
            forall|j: int|
                0 <= j < list@.len() ==> (#[trigger] list@[j])@ == format.extension_list()[j],
            forall|j: int| 0 <= j < i ==> format.extension_list()[j] != lowered@,
            lowered@ == styled(Letters::Lower, extension@),
        decreases list@.len() - i,
    {
        if list[i].to_owned() == lowered {
            return true;
        }
        i += 1;
    }
    false
}

impl FormatSet {
    /// The first of the first `n` syntaxes whose switch is on and which has
    /// the extension `extension`.
    pub open spec fn resolved(self, extension: Seq<char>, n: nat) -> Option<FileFormat>
        decreases n,
    {
        if n == 0 || n > FileFormat::every().len() {
            None
        } else {
            match self.resolved(extension, (n - 1) as nat) {
                Some(format) => Some(format),
                None => {
                    let format = FileFormat::every()[n - 1];
                    if self.has(format) && has_extension(format, extension) {
                        Some(format)
                    } else {
                        None
                    }
                },
            }
        }
    }

    /// The syntax in which a file with the extension `extension` is read:
    /// the first syntax that is switched on and has this extension, whatever
    /// the case of its letters. The extension is given without a leading dot.
    pub fn format_for(&self, extension: &str) -> (found: Option<FileFormat>)
        ensures
            found == self.resolved(extension@, FileFormat::every().len()),
            match found {
                Some(format) => self.has(format) && has_extension(format, extension@),
                None => forall|format: FileFormat|
                    self.has(format) ==> !has_extension(format, extension@),
            },
    {
        let every = FileFormat::all();
        let mut i: usize = 0;
        while i < every.len()
            invariant
                every@ == FileFormat::every(),
                i <= every@.len(),
                self.resolved(extension@, i as nat) is None,
                forall|j: int|
                    0 <= j < i ==> !(self.has(#[trigger] every@[j]) && has_extension(
                        every@[j],
                        extension@,
                    )),
            decreases every@.len() - i,
        {
            let format = every[i];
            if self.contains(format) && recognises(format, extension) {
                proof {
                    lemma_resolved_stays(*self, extension@, (i + 1) as nat, every@.len());
                }
                return Some(format);
            }
            i += 1;
        }
        None
    }

    /// Whether the switch of `format` is on.
    pub open spec fn has(self, format: FileFormat) -> bool {
        match format {
            FileFormat::Toml => self.toml,
            FileFormat::Json => self.json,
            FileFormat::Yaml => self.yaml,
            FileFormat::Hjson => self.hjson,
            FileFormat::Ini => self.ini,
        }
    }

    /// Those of the first `n` syntaxes whose switch is on, in the order of
    /// declaration.
    pub open spec fn admitted(self, n: nat) -> Seq<FileFormat>
        decreases n,
    {
        if n == 0 || n > FileFormat::every().len() {
            Seq::empty()
        } else if self.has(FileFormat::every()[n - 1]) {
            self.admitted((n - 1) as nat).push(FileFormat::every()[n - 1])
        } else {
            self.admitted((n - 1) as nat)
        }
    }

    /// What a request to read `text` in `format` gives: what the syntax gives
    /// where its switch is on, and otherwise a failure that says so.
    pub open spec fn parsed(self, format: FileFormat, uri: Option<Seq<char>>, text: Seq<char>)
        -> Result<Seq<(Seq<char>, ValueView)>, FormatErrorView> {
        if self.has(format) {
            format.parsed(uri, text)
        } else {
            Err(
                FormatErrorView {
                    kind: ErrorKind::Unsupported,
                    format,
                    uri,
                    message: unsupported_message(),
                },
            )
        }
    }

    /// Every switch on.
    pub fn all() -> (set: FormatSet)
        ensures
            forall|format: FileFormat| set.has(format),
    {
        FormatSet { toml: true, json: true, yaml: true, hjson: true, ini: true }
    }

    /// Every switch off.
    pub fn none() -> (set: FormatSet)
        ensures
            forall|format: FileFormat| !set.has(format),
    {
        FormatSet { toml: false, json: false, yaml: false, hjson: false, ini: false }
    }

    /// Whether the switch of `format` is on.
    pub fn contains(&self, format: FileFormat) -> (on: bool)
        ensures
            on == self.has(format),
    {
        match format {
            FileFormat::Toml => self.toml,
            FileFormat::Json => self.json,
            FileFormat::Yaml => self.yaml,
            FileFormat::Hjson => self.hjson,
            FileFormat::Ini => self.ini,
        }
    }

    /// The syntaxes whose switch is on, in the order of declaration, each
    /// once.
    pub fn formats(&self) -> (list: Vec<FileFormat>)
        ensures
            list@ == self.admitted(FileFormat::every().len()),
            forall|format: FileFormat| list@.contains(format) == self.has(format),
    {
        let every = FileFormat::all();
        let mut list: Vec<FileFormat> = Vec::new();
        let mut i: usize = 0;
        while i < every.len()
            invariant
                every@ == FileFormat::every(),
                i <= every@.len(),
                list@ == self.admitted(i as nat),
            decreases every@.len() - i,
        {
            let format = every[i];
            if self.contains(format) {
                list.push(format);
            }
            i += 1;
        }
        proof {
            assert forall|format: FileFormat| list@.contains(format) == self.has(format) by {
                lemma_admitted_holds(*self, FileFormat::every().len(), format);
            }
        }
        list
    }

    /// Reads `text` as a document of `format` if the switch of `format` is
    /// on. If it is off, the text is not read and the failure is of the kind
    /// `Unsupported`.
    pub fn parse(&self, format: FileFormat, uri: Option<&String>, text: &str) -> (result: Result<
        Table,
        FormatError,
    >)
        ensures
            result_view(result) == self.parsed(format, uri_view(uri), text@),
    {
        if self.contains(format) {
            format.parse(uri, text)
        } else {
            Err(
                FormatError {
                    kind: ErrorKind::Unsupported,
                    format,
                    uri: match uri {
                        Some(uri) => Some(uri.clone()),
                        None => None,
                    },
                    message: "the syntax is not among those that are read".to_owned(),
                },
            )
        }
    }
}

/// Among the admitted of the first `n` syntaxes are those of them whose switch
/// is on, and no others.
pub proof fn lemma_admitted_holds(set: FormatSet, n: nat, format: FileFormat)
    requires
        n <= FileFormat::every().len(),
    ensures
        set.admitted(n).contains(format) == (set.has(format) && place(format) < n),
    decreases n,
{
    if n > 0 {
        lemma_admitted_holds(set, (n - 1) as nat, format);
        let before = set.admitted((n - 1) as nat);
        let last = FileFormat::every()[n - 1];
        if set.has(last) {
            let after = before.push(last);
            assert(after[before.len() as int] == last);
            if before.contains(format) {
                let k = choose|k: int| 0 <= k < before.len() && before[k] == format;
                assert(after[k] == format);
            }
        }
    }
}

/// Once a syntax is found for an extension, looking at more syntaxes finds
/// the same one.
pub proof fn lemma_resolved_stays(set: FormatSet, extension: Seq<char>, n: nat, m: nat)
    requires
        n <= m <= FileFormat::every().len(),
        set.resolved(extension, n) is Some,
    ensures
        set.resolved(extension, m) == set.resolved(extension, n),
    decreases m,
{
    if n < m {
        lemma_resolved_stays(set, extension, n, (m - 1) as nat);
    }
}

} // verus!
