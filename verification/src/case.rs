//! Naming conventions for keys.
//!
//! A key is cut into words and the words are put together again in the manner
//! of a convention. Every convention cuts in the same way:
//!
//! * an ASCII character that is neither a letter nor a digit separates words
//!   and belongs to none;
//! * a word also ends between an ASCII lower-case letter and an ASCII
//!   upper-case letter that follows it;
//! * every other character, any character outside ASCII among them, belongs
//!   to the word that is being read.
//!
//! Letters change case as ASCII letters do; other characters stay as they are.

use vstd::prelude::*;

verus! {

/// `String::push` appends one character to the end of the string.
pub assume_specification[ std::string::String::push ](s: &mut std::string::String, ch: char)
    ensures
        final(s)@ == old(s)@.push(ch),
;

/// An ASCII lower-case letter.
pub open spec fn is_lower(c: char) -> bool {
    'a' <= c <= 'z'
}

/// An ASCII upper-case letter.
pub open spec fn is_upper(c: char) -> bool {
    'A' <= c <= 'Z'
}

/// An ASCII digit.
pub open spec fn is_digit(c: char) -> bool {
    '0' <= c <= '9'
}

/// A character that separates words: ASCII, and neither letter nor digit.
pub open spec fn is_separator(c: char) -> bool {
    (c as u32) < 128 && !is_lower(c) && !is_upper(c) && !is_digit(c)
}

/// The lower-case form of an ASCII letter; any other character unchanged.
pub open spec fn to_lower(c: char) -> char {
    if is_upper(c) {
        ((c as u8) + 32) as char
    } else {
        c
    }
}

/// The upper-case form of an ASCII letter; any other character unchanged.
pub open spec fn to_upper(c: char) -> char {
    if is_lower(c) {
        ((c as u8) - 32) as char
    } else {
        c
    }
}

/// How the letters of one word are written.
#[derive(Debug, Clone, Copy, PartialEq, Eq, Structural)]
pub enum Letters {
    /// All in lower case.
    Lower,
    /// All in upper case.
    Upper,
    /// The first in upper case, the others in lower case.
    Capitalized,
}

/// The character that stands for `c` in a word written as `letters` ask;
/// `first` says whether `c` begins the word.
pub open spec fn styled_char(letters: Letters, first: bool, c: char) -> char {
    match letters {
        Letters::Lower => to_lower(c),
        Letters::Upper => to_upper(c),
        Letters::Capitalized => if first {
            to_upper(c)
        } else {
            to_lower(c)
        },
    }
}

/// The word `word` written as `letters` ask.
pub open spec fn styled(letters: Letters, word: Seq<char>) -> Seq<char> {
    Seq::new(word.len(), |i: int| styled_char(letters, i == 0, word[i]))
}

/// What is known after a prefix of a key was read: the words that have ended,
/// and the characters of the word that is being read.
pub struct Scan {
    pub words: Seq<Seq<char>>,
    pub word: Seq<char>,
}

/// The state before any character was read.
pub open spec fn scan_start() -> Scan {
    Scan { words: Seq::empty(), word: Seq::empty() }
}

/// The words of a state once its input has ended.
pub open spec fn scan_end(state: Scan) -> Seq<Seq<char>> {
    if state.word.len() == 0 {
        state.words
    } else {
        state.words.push(state.word)
    }
}

/// The state after the character `c` was read in `state`.
pub open spec fn scan_step(state: Scan, c: char) -> Scan {
    if is_separator(c) {
        Scan { words: scan_end(state), word: Seq::empty() }
    } else if state.word.len() > 0 && is_lower(state.word.last()) && is_upper(c) {
        Scan { words: state.words.push(state.word), word: seq![c] }
    } else {
        Scan { words: state.words, word: state.word.push(c) }
    }
}

/// The state after the characters of `text` were read in `state`, in order.
pub open spec fn scan(state: Scan, text: Seq<char>) -> Scan
    decreases text.len(),
{
    if text.len() == 0 {
        state
    } else {
        scan_step(scan(state, text.drop_last()), text.last())
    }
}

/// The words of a key.
pub open spec fn words_of(key: Seq<char>) -> Seq<Seq<char>> {
    scan_end(scan(scan_start(), key))
}

/// The words put together: the first written as `first` asks, the others as
/// `rest` asks, with `separator` between neighbours.
pub open spec fn assembled(
    words: Seq<Seq<char>>,
    separator: Seq<char>,
    first: Letters,
    rest: Letters,
) -> Seq<char>
    decreases words.len(),
{
    if words.len() == 0 {
        Seq::empty()
    } else if words.len() == 1 {
        styled(first, words[0])
    } else {
        assembled(words.drop_last(), separator, first, rest) + separator + styled(
            rest,
            words.last(),
        )
    }
}

/// A naming convention.
#[derive(Debug, Clone, Copy, PartialEq, Eq, Hash, Structural)]
pub enum RenameRule {
    /// `camelCase`
    CamelCase,
    /// `kebab-case`
    KebabCase,
    /// `lowercase`, without separators
    LowerCase,
    /// `PascalCase`
    PascalCase,
    /// `SCREAMING-KEBAB-CASE`
    ScreamingKebabCase,
    /// `SCREAMING_SNAKE_CASE`
    ScreamingSnakeCase,
    /// `snake_case`
    SnakeCase,
    /// `UPPERCASE`, without separators
    UpperCase,
}

impl RenameRule {
    /// What stands between two words.
    pub open spec fn separator(self) -> Seq<char> {
        match self {
            RenameRule::KebabCase | RenameRule::ScreamingKebabCase => seq!['-'],
            RenameRule::SnakeCase | RenameRule::ScreamingSnakeCase => seq!['_'],
            _ => Seq::empty(),
        }
    }

    /// How the first word is written.
    pub open spec fn first_letters(self) -> Letters {
        match self {
            RenameRule::CamelCase | RenameRule::KebabCase | RenameRule::LowerCase
            | RenameRule::SnakeCase => Letters::Lower,
            RenameRule::PascalCase => Letters::Capitalized,
            _ => Letters::Upper,
        }
    }

    /// How every word after the first is written.
    pub open spec fn other_letters(self) -> Letters {
        match self {
            RenameRule::KebabCase | RenameRule::LowerCase | RenameRule::SnakeCase => Letters::Lower,
            RenameRule::CamelCase | RenameRule::PascalCase => Letters::Capitalized,
            _ => Letters::Upper,
        }
    }

    /// The key `field` in this convention.
    pub open spec fn applied(self, field: Seq<char>) -> Seq<char> {
        assembled(
            words_of(field),
            self.separator(),
            self.first_letters(),
            self.other_letters(),
        )
    }
}

/// The character sequences of a sequence of words.
pub open spec fn word_views(words: Seq<Vec<char>>) -> Seq<Seq<char>> {
    Seq::new(words.len(), |i: int| words[i]@)
}

/// Whether `c` is an ASCII lower-case letter.
fn char_is_lower(c: char) -> (r: bool)
    ensures
        r == is_lower(c),
{
    'a' <= c && c <= 'z'
}

/// Whether `c` is an ASCII upper-case letter.
fn char_is_upper(c: char) -> (r: bool)
    ensures
        r == is_upper(c),
{
    'A' <= c && c <= 'Z'
}

/// Whether `c` separates words.
fn char_is_separator(c: char) -> (r: bool)
    ensures
        r == is_separator(c),
{
    c <= '\u{7f}' && !('a' <= c && c <= 'z') && !('A' <= c && c <= 'Z') && !('0' <= c && c <= '9')
}

/// The lower-case form of `c`.
fn char_to_lower(c: char) -> (r: char)
    ensures
        r == to_lower(c),
{
    if 'A' <= c && c <= 'Z' {
        ((c as u8) + 32) as char
    } else {
        c
    }
}

/// The upper-case form of `c`.
fn char_to_upper(c: char) -> (r: char)
    ensures
        r == to_upper(c),
{
    if 'a' <= c && c <= 'z' {
        ((c as u8) - 32) as char
    } else {
        c
    }
}

/// The character that stands for `c` in a word written as `letters` ask.
fn char_styled(letters: Letters, first: bool, c: char) -> (r: char)
    ensures
        r == styled_char(letters, first, c),
{
    match letters {
        Letters::Lower => char_to_lower(c),
        Letters::Upper => char_to_upper(c),
        Letters::Capitalized => if first {
            char_to_upper(c)
        } else {
            char_to_lower(c)
        },
    }
}

/// Writes the ASCII upper-case letters of `text` in lower case and leaves
/// every other character as it is.
pub fn to_lower_case(text: &str) -> (lowered: String)
    ensures
        lowered@ == styled(Letters::Lower, text@),
{
    let mut out = String::new();
    let ghost mut read: Seq<char> = Seq::empty();
    for c in it: text.chars()
        invariant
            read == it.seq().take(it.index()),
            out@ == styled(Letters::Lower, read),
    {
        out.push(char_to_lower(c));
        proof {
            assert(styled(Letters::Lower, read).push(to_lower(c)) =~= styled(
                Letters::Lower,
                read.push(c),
            ));
            read = read.push(c);
        }
    }
    out
}

/// Cuts a key into its words.
pub(crate) fn split_words(key: &str) -> (words: Vec<Vec<char>>)
    ensures
        word_views(words@) == words_of(key@),
{
    let mut done: Vec<Vec<char>> = Vec::new();
    let mut word: Vec<char> = Vec::new();
    let ghost mut read: Seq<char> = Seq::empty();
    assert(word_views(done@) =~= scan_start().words);
    for c in it: key.chars()
        invariant
            read == it.seq().take(it.index()),
            (Scan { words: word_views(done@), word: word@ }) == scan(scan_start(), read),
    {
        let ghost next = read.push(c);
        assert(next.drop_last() =~= read);
        let ghost before = Scan { words: word_views(done@), word: word@ };
        if char_is_separator(c) {
            if word.len() > 0 {
                done.push(word);
                word = Vec::new();
            }
            assert(word_views(done@) =~= scan_end(before));
        } else if word.len() > 0 && char_is_lower(word[word.len() - 1]) && char_is_upper(c) {
            done.push(word);
            word = Vec::new();
            word.push(c);
            assert(word_views(done@) =~= before.words.push(before.word));
        } else {
            word.push(c);
        }
        proof {
            read = next;
        }
    }
    assert(read =~= key@);
    if word.len() > 0 {
        done.push(word);
    }
    done
}

impl RenameRule {
    /// The character that stands between two words, if one does.
    fn separator_char(&self) -> (sep: Option<char>)
        ensures
            match sep {
                Some(c) => self.separator() == seq![c],
                None => self.separator() == Seq::<char>::empty(),
            },
    {
        match self {
            RenameRule::KebabCase | RenameRule::ScreamingKebabCase => Some('-'),
            RenameRule::SnakeCase | RenameRule::ScreamingSnakeCase => Some('_'),
            _ => None,
        }
    }

    /// How the first word is written, or how the others are.
    fn letters_at(&self, first_word: bool) -> (letters: Letters)
        ensures
            letters == if first_word {
                self.first_letters()
            } else {
                self.other_letters()
            },
    {
        match self {
            RenameRule::KebabCase | RenameRule::LowerCase | RenameRule::SnakeCase => Letters::Lower,
            RenameRule::CamelCase => if first_word {
                Letters::Lower
            } else {
                Letters::Capitalized
            },
            RenameRule::PascalCase => Letters::Capitalized,
            _ => Letters::Upper,
        }
    }

    /// Puts words together in this convention.
    pub(crate) fn join_words(&self, words: &Vec<Vec<char>>) -> (joined: String)
        ensures
            joined@ == assembled(
                word_views(words@),
                self.separator(),
                self.first_letters(),
                self.other_letters(),
            ),
    {
        let ghost all = word_views(words@);
        let ghost sep = self.separator();
        let ghost first = self.first_letters();
        let ghost rest = self.other_letters();
        let separator = self.separator_char();
        let mut out = String::new();
        let mut i: usize = 0;
        while i < words.len()
            invariant
                i <= words@.len(),
                all == word_views(words@),
                sep == self.separator(),
                first == self.first_letters(),
                rest == self.other_letters(),
                match separator {
                    Some(c) => sep == seq![c],
                    None => sep == Seq::<char>::empty(),
                },
                out@ == assembled(all.take(i as int), sep, first, rest),
            decreases words@.len() - i,
        {
            if i > 0 {
                match separator {
                    Some(c) => {
                        out.push(c);
                    },
                    None => {},
                }
            }
            let ghost head = out@;
            let letters = self.letters_at(i == 0);
            let word = &words[i];
            let mut j: usize = 0;
            while j < word.len()
                invariant
                    j <= word@.len(),
                    out@ == head + styled(letters, word@).take(j as int),
                decreases word@.len() - j,
            {
                out.push(char_styled(letters, j == 0, word[j]));
                assert(styled(letters, word@).take(j + 1) =~= styled(letters, word@).take(
                    j as int,
                ).push(styled(letters, word@)[j as int]));
                j += 1;
            }
            assert(all.take(i + 1).drop_last() =~= all.take(i as int));
            assert(out@ =~= assembled(all.take(i + 1), sep, first, rest));
            i += 1;
        }
        assert(all.take(words@.len() as int) =~= all);
        out
    }

    /// Writes the key `field` in this convention.
    pub fn apply_to_field(&self, field: &str) -> (renamed: String)
        ensures
            renamed@ == self.applied(field@),
    {
        let words = split_words(field);
        self.join_words(&words)
    }
}

} // verus!
