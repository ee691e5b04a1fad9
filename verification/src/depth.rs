//! How deep an HJSON text nests, found by reading its characters as the
//! parser does.
//!
//! The HJSON parser descends into nested arrays and objects by recursion and
//! sets no limit to it. Here a text is read character by character, without
//! recursion, in step with the parser for as long as the parser finds no
//! fault, and the arrays and objects that are open are counted. Where the
//! parser finds a fault it reads no further, so from there on nothing is
//! counted.
//!
//! The parser reads a text as an object without braces first and, if that
//! fails, as a value. Both readings are followed.

use vstd::prelude::*;

verus! {

/// The most arrays and objects that may be open at once in an HJSON text.
pub const MAX_HJSON_DEPTH: usize = 256;

/// What the parser looks for between two tokens.
#[derive(Debug, Clone, Copy, PartialEq, Eq, Structural)]
pub enum Expect {
    /// A value.
    Value,
    /// An element of an array, or its end.
    Item,
    /// A comma or what `Item` looks for.
    NextItem,
    /// A key of an object, or its end.
    Key,
    /// A comma or what `Key` looks for.
    NextKey,
    /// The colon after a key.
    Colon,
    /// The end of the text.
    End,
}

/// What the parser is reading.
#[derive(Debug, Clone, Copy, PartialEq, Eq, Structural)]
pub enum Mode {
    /// Blanks between tokens.
    Gap,
    /// A comment that ends with its line.
    LineComment,
    /// The `/` of a `/*` was read.
    BlockOpen,
    /// A comment between `/*` and `*/`; whether a `*` was read last.
    Block(bool),
    /// A string in double quotes; whether it is a key.
    Quoted(bool),
    /// The character after a backslash in such a string.
    Escape(bool),
    /// A key without quotes.
    KeyName,
    /// A value without quotes.
    Scalar,
    /// A string between `'''` and `'''`; how many `'` were read last.
    Multiline(u8),
    /// The parser found a fault and reads no more.
    Stopped,
}

/// How far a value without quotes spells `true`, `false` or `null`.
#[derive(Debug, Clone, Copy, PartialEq, Eq, Structural)]
pub enum Word {
    /// It spells none of them.
    No,
    /// It spells so many letters of `true`.
    True(u8),
    /// It spells so many letters of `false`.
    False(u8),
    /// It spells so many letters of `null`.
    Null(u8),
    /// It spells one of them, with nothing but blanks after it.
    Whole,
}

/// How far a value without quotes spells a number.
#[derive(Debug, Clone, Copy, PartialEq, Eq, Structural)]
pub enum Number {
    /// It spells none.
    No,
    /// A minus sign.
    Sign,
    /// A single zero.
    Zero,
    /// Digits that begin with none.
    Digits,
    /// A point, after which a digit must follow.
    Point,
    /// Digits after the point.
    Fraction,
    /// An `e`, after which a sign or a digit must follow.
    Exponent,
    /// The sign of an exponent, after which a digit must follow.
    ExponentSign,
    /// Digits of an exponent.
    ExponentDigits,
    /// Blanks after a number.
    Blanks,
}

/// What is known of a value without quotes from the characters read so far.
#[derive(Debug, Clone, Copy, PartialEq, Eq, Structural)]
pub struct Unquoted {
    pub word: Word,
    pub number: Number,
    /// Whether the number has a minus sign.
    pub negative: bool,
    /// Whether the number has a point or an exponent.
    pub float: bool,
    /// The digits before point and exponent as a number, or any number
    /// beyond `u64::MAX` if they are more than that.
    pub magnitude: u128,
    /// How many `'` the value begins with, if it holds nothing else so far;
    /// otherwise 4.
    pub quotes: u8,
}

/// Where the parser stands, but for the arrays and objects that are open.
#[derive(Debug, Clone, Copy, PartialEq, Eq, Structural)]
pub struct Lex {
    pub mode: Mode,
    pub expect: Expect,
    pub unquoted: Unquoted,
    /// Whether the text is read as an object without braces.
    pub root: bool,
    /// Whether more arrays and objects were open than are read.
    pub too_deep: bool,
}

/// Where the parser stands.
pub struct Reader {
    pub lex: Lex,
    /// The arrays and objects that are open, outermost first; an object is
    /// `true`.
    pub open: Vec<bool>,
}

/// The content of a [`Reader`].
pub struct ReaderView {
    pub lex: Lex,
    pub open: Seq<bool>,
}

impl View for Reader {
    type V = ReaderView;

    open spec fn view(&self) -> ReaderView {
        ReaderView { lex: self.lex, open: self.open@ }
    }
}

/// A blank between tokens.
pub open spec fn is_blank(c: char) -> bool {
    c == ' ' || c == '\n' || c == '\t' || c == '\r'
}

/// A character that `str::trim` takes off: the white space of Unicode.
pub open spec fn is_white_space(c: char) -> bool {
    ||| '\u{9}' <= c <= '\u{d}'
    ||| c == ' '
    ||| c == '\u{85}'
    ||| c == '\u{a0}'
    ||| c == '\u{1680}'
    ||| '\u{2000}' <= c <= '\u{200a}'
    ||| c == '\u{2028}'
    ||| c == '\u{2029}'
    ||| c == '\u{202f}'
    ||| c == '\u{205f}'
    ||| c == '\u{3000}'
}

/// An ASCII digit.
pub open spec fn is_digit(c: char) -> bool {
    '0' <= c <= '9'
}

/// A value without quotes before its first character.
pub open spec fn unquoted_start() -> Unquoted {
    Unquoted {
        word: Word::No,
        number: Number::No,
        negative: false,
        float: false,
        magnitude: 0,
        quotes: 0,
    }
}

/// How far the value spells a word after one more character; `first` says
/// whether it is the first.
pub open spec fn word_step(word: Word, first: bool, c: char) -> Word {
    if first {
        if c == 't' {
            Word::True(1)
        } else if c == 'f' {
            Word::False(1)
        } else if c == 'n' {
            Word::Null(1)
        } else {
            Word::No
        }
    } else {
        match word {
            Word::True(1) if c == 'r' => Word::True(2),
            Word::True(2) if c == 'u' => Word::True(3),
            Word::True(3) if c == 'e' => Word::Whole,
            Word::False(1) if c == 'a' => Word::False(2),
            Word::False(2) if c == 'l' => Word::False(3),
            Word::False(3) if c == 's' => Word::False(4),
            Word::False(4) if c == 'e' => Word::Whole,
            Word::Null(1) if c == 'u' => Word::Null(2),
            Word::Null(2) if c == 'l' => Word::Null(3),
            Word::Null(3) if c == 'l' => Word::Whole,
            Word::Whole if is_white_space(c) => Word::Whole,
            _ => Word::No,
        }
    }
}

/// How far the value spells a number after one more character.
pub open spec fn number_step(number: Number, first: bool, c: char) -> Number {
    if first {
        if c == '-' {
            Number::Sign
        } else if c == '0' {
            Number::Zero
        } else if is_digit(c) {
            Number::Digits
        } else {
            Number::No
        }
    } else {
        match number {
            Number::Sign => if c == '0' {
                Number::Zero
            } else if is_digit(c) {
                Number::Digits
            } else {
                Number::No
            },
            Number::Zero => if c == '.' {
                Number::Point
            } else if c == 'e' || c == 'E' {
                Number::Exponent
            } else if c == ' ' || c == '\t' {
                Number::Blanks
            } else {
                Number::No
            },
            Number::Digits => if is_digit(c) {
                Number::Digits
            } else if c == '.' {
                Number::Point
            } else if c == 'e' || c == 'E' {
                Number::Exponent
            } else if c == ' ' || c == '\t' {
                Number::Blanks
            } else {
                Number::No
            },
            Number::Point => if is_digit(c) {
                Number::Fraction
            } else {
                Number::No
            },
            Number::Fraction => if is_digit(c) {
                Number::Fraction
            } else if c == 'e' || c == 'E' {
                Number::Exponent
            } else if c == ' ' || c == '\t' {
                Number::Blanks
            } else {
                Number::No
            },
            Number::Exponent => if c == '+' || c == '-' {
                Number::ExponentSign
            } else if is_digit(c) {
                Number::ExponentDigits
            } else {
                Number::No
            },
            Number::ExponentSign => if is_digit(c) {
                Number::ExponentDigits
            } else {
                Number::No
            },
            Number::ExponentDigits => if is_digit(c) {
                Number::ExponentDigits
            } else if c == ' ' || c == '\t' {
                Number::Blanks
            } else {
                Number::No
            },
            Number::Blanks => if c == ' ' || c == '\t' {
                Number::Blanks
            } else {
                Number::No
            },
            Number::No => Number::No,
        }
    }
}

/// What is known of a value without quotes after one more character.
pub open spec fn unquoted_step(unquoted: Unquoted, first: bool, c: char) -> Unquoted {
    let number = number_step(unquoted.number, first, c);
    let counts = is_digit(c) && (number == Number::Zero || number == Number::Digits);
    Unquoted {
        word: word_step(unquoted.word, first, c),
        number,
        negative: unquoted.negative || (first && c == '-'),
        float: unquoted.float || number == Number::Point || number == Number::Exponent,
        magnitude: if !counts || unquoted.magnitude > u64::MAX {
            unquoted.magnitude
        } else {
            (unquoted.magnitude * 10 + (c as u8 - 48)) as u128
        },
        quotes: if c == '\'' && unquoted.quotes < 3 {
            (unquoted.quotes + 1) as u8
        } else {
            4
        },
    }
}

/// Whether the value spells `true`, `false`, `null` or a number so far, so
/// that it ends before a comma, a closing bracket or a comment.
pub open spec fn is_complete(unquoted: Unquoted) -> bool {
    ||| unquoted.word == Word::Whole
    ||| {
        &&& unquoted.number == Number::Zero || unquoted.number == Number::Digits
            || unquoted.number == Number::Fraction || unquoted.number == Number::ExponentDigits
            || unquoted.number == Number::Blanks
        &&& unquoted.float || if unquoted.negative {
            unquoted.magnitude <= 0x8000_0000_0000_0000
        } else {
            unquoted.magnitude <= u64::MAX
        }
    }
}

/// The parser after it found a fault.
pub open spec fn stopped(reader: ReaderView) -> ReaderView {
    ReaderView { lex: Lex { mode: Mode::Stopped, ..reader.lex }, ..reader }
}

/// The parser between tokens, looking for `expect`.
pub open spec fn between(reader: ReaderView, expect: Expect) -> ReaderView {
    ReaderView { lex: Lex { mode: Mode::Gap, expect, ..reader.lex }, ..reader }
}

/// The parser in the mode `mode`.
pub open spec fn reading(reader: ReaderView, mode: Mode) -> ReaderView {
    ReaderView { lex: Lex { mode, ..reader.lex }, ..reader }
}

/// The parser after a value ended: in an array it looks for the next
/// element, in an object for the next key, and outside both for the end of
/// the text.
pub open spec fn after_value(reader: ReaderView) -> ReaderView {
    between(
        reader,
        if reader.open.len() == 0 {
            Expect::End
        } else if reader.open.last() {
            Expect::NextKey
        } else {
            Expect::NextItem
        },
    )
}

/// The parser after an array or object began. One more than may be open is
/// too deep, and no more is read.
pub open spec fn opened(reader: ReaderView, object: bool) -> ReaderView {
    if reader.open.len() >= MAX_HJSON_DEPTH {
        ReaderView { lex: Lex { mode: Mode::Stopped, too_deep: true, ..reader.lex }, ..reader }
    } else {
        between(
            ReaderView { open: reader.open.push(object), ..reader },
            if object {
                Expect::Key
            } else {
                Expect::Item
            },
        )
    }
}

/// The parser after the innermost array or object ended.
pub open spec fn closed(reader: ReaderView) -> ReaderView {
    if reader.open.len() == 0 || (reader.lex.root && reader.open.len() == 1) {
        stopped(reader)
    } else {
        after_value(ReaderView { open: reader.open.drop_last(), ..reader })
    }
}

/// The parser at the first character of a value.
pub open spec fn value_begins(reader: ReaderView, c: char) -> ReaderView {
    if c == '"' {
        reading(reader, Mode::Quoted(false))
    } else if c == '[' {
        opened(reader, false)
    } else if c == '{' {
        opened(reader, true)
    } else if c == '\0' || c == '}' || c == ']' || c == ',' || c == ':' {
        stopped(reader)
    } else {
        ReaderView {
            lex: Lex {
                mode: Mode::Scalar,
                unquoted: unquoted_step(unquoted_start(), true, c),
                ..reader.lex
            },
            ..reader
        }
    }
}

/// The parser at the first character of an element of an array, or at the
/// end of the array.
pub open spec fn item_begins(reader: ReaderView, c: char) -> ReaderView {
    if c == ']' {
        if reader.open.len() > 0 && !reader.open.last() {
            closed(reader)
        } else {
            stopped(reader)
        }
    } else {
        value_begins(reader, c)
    }
}

/// The parser at the first character of a key, or at the end of the object.
pub open spec fn key_begins(reader: ReaderView, c: char) -> ReaderView {
    if c == '}' {
        if reader.open.len() > 0 && reader.open.last() {
            closed(reader)
        } else {
            stopped(reader)
        }
    } else if c == '"' {
        reading(reader, Mode::Quoted(true))
    } else {
        key_name(reading(reader, Mode::KeyName), c)
    }
}

/// The parser after one more character of a key without quotes.
pub open spec fn key_name(reader: ReaderView, c: char) -> ReaderView {
    if c == ':' {
        between(reader, Expect::Value)
    } else if c == '\0' || c == '{' || c == '}' || c == '[' || c == ']' || c == ',' {
        stopped(reader)
    } else {
        reader
    }
}

/// The parser at a character between tokens that is no blank and begins no
/// comment.
pub open spec fn token_begins(reader: ReaderView, c: char) -> ReaderView {
    match reader.lex.expect {
        Expect::Value => value_begins(reader, c),
        Expect::Item => item_begins(reader, c),
        Expect::NextItem => if c == ',' {
            between(reader, Expect::Item)
        } else {
            item_begins(reader, c)
        },
        Expect::Key => key_begins(reader, c),
        Expect::NextKey => if c == ',' {
            between(reader, Expect::Key)
        } else {
            key_begins(reader, c)
        },
        Expect::Colon => if c == ':' {
            between(reader, Expect::Value)
        } else {
            stopped(reader)
        },
        Expect::End => stopped(reader),
    }
}

/// The parser at a character between tokens; `next` is the character after
/// it, if there is one.
pub open spec fn gap(reader: ReaderView, c: char, next: Option<char>) -> ReaderView {
    if is_blank(c) {
        reader
    } else if c == '#' {
        reading(reader, Mode::LineComment)
    } else if c == '/' {
        match next {
            Some('/') => reading(reader, Mode::LineComment),
            Some('*') => reading(reader, Mode::BlockOpen),
            Some(_) => token_begins(reader, c),
            None => stopped(reader),
        }
    } else {
        token_begins(reader, c)
    }
}

/// The parser after one more character of a value without quotes.
///
/// The value ends with its line. It ends before a comma, a closing bracket or
/// a comment only if it spells `true`, `false`, `null` or a number; otherwise
/// these characters belong to it. A value that begins with `'''` is a string
/// of several lines.
pub open spec fn scalar(reader: ReaderView, c: char, next: Option<char>) -> ReaderView {
    let line_ends = c == '\r' || c == '\n' || c == '\0';
    let comment = c == '#' || (c == '/' && (next == Some('/') || next == Some('*')));
    if (line_ends || comment || c == ',' || c == '}' || c == ']') && is_complete(
        reader.lex.unquoted,
    ) {
        gap(after_value(reader), c, next)
    } else if line_ends {
        after_value(reader)
    } else {
        let unquoted = unquoted_step(reader.lex.unquoted, false, c);
        ReaderView {
            lex: Lex {
                mode: if unquoted.quotes == 3 {
                    Mode::Multiline(0)
                } else {
                    Mode::Scalar
                },
                unquoted,
                ..reader.lex
            },
            ..reader
        }
    }
}

/// The parser after one more character.
pub open spec fn read_char(reader: ReaderView, c: char, next: Option<char>) -> ReaderView {
    match reader.lex.mode {
        Mode::Stopped => reader,
        Mode::Gap => gap(reader, c, next),
        Mode::LineComment => if c == '\n' {
            reading(reader, Mode::Gap)
        } else {
            reader
        },
        Mode::BlockOpen => reading(reader, Mode::Block(false)),
        Mode::Block(star) => if star && c == '/' {
            reading(reader, Mode::Gap)
        } else {
            reading(reader, Mode::Block(c == '*'))
        },
        Mode::Quoted(key) => if c == '"' {
            if key {
                between(reader, Expect::Colon)
            } else {
                after_value(reader)
            }
        } else if c == '\\' {
            reading(reader, Mode::Escape(key))
        } else {
            reader
        },
        Mode::Escape(key) => reading(reader, Mode::Quoted(key)),
        Mode::KeyName => key_name(reader, c),
        Mode::Scalar => scalar(reader, c, next),
        Mode::Multiline(quotes) => if c == '\'' {
            if quotes >= 2 {
                after_value(reader)
            } else {
                reading(reader, Mode::Multiline((quotes + 1) as u8))
            }
        } else {
            reading(reader, Mode::Multiline(0))
        },
    }
}

/// The parser before the first character: of a text that is read as an
/// object without braces if `root` holds, and as a value if not.
pub open spec fn read_start(root: bool) -> ReaderView {
    ReaderView {
        lex: Lex {
            mode: Mode::Gap,
            expect: if root {
                Expect::Key
            } else {
                Expect::Value
            },
            unquoted: unquoted_start(),
            root,
            too_deep: false,
        },
        open: if root {
            seq![true]
        } else {
            Seq::empty()
        },
    }
}

/// The character after place `i`, if there is one.
pub open spec fn char_after(text: Seq<char>, i: int) -> Option<char> {
    if 0 <= i + 1 < text.len() {
        Some(text[i + 1])
    } else {
        None
    }
}

/// The parser after the first `n` characters of a text.
pub open spec fn read(text: Seq<char>, root: bool, n: nat) -> ReaderView
    decreases n,
{
    if n == 0 || n > text.len() {
        read_start(root)
    } else {
        read_char(read(text, root, (n - 1) as nat), text[n - 1], char_after(text, n - 1))
    }
}

/// Whether an HJSON text nests no deeper than is read, however the parser
/// reads it.
pub open spec fn hjson_fits(text: Seq<char>) -> bool {
    !read(text, true, text.len()).lex.too_deep && !read(text, false, text.len()).lex.too_deep
}

/// What is said of a text that nests deeper than is read.
pub open spec fn too_deep() -> Seq<char> {
    "the text nests deeper than is read"@
}

/// Once the parser has stopped, more characters change nothing.
pub proof fn lemma_stopped_stays(text: Seq<char>, root: bool, n: nat, m: nat)
    requires
        n <= m <= text.len(),
        read(text, root, n).lex.mode == Mode::Stopped,
    ensures
        read(text, root, m) == read(text, root, n),
    decreases m,
{
    if n < m {
        lemma_stopped_stays(text, root, n, (m - 1) as nat);
    }
}

/// Whether `str::trim` takes the character off.
fn white_space(c: char) -> (yes: bool)
    ensures
        yes == is_white_space(c),
{
    ('\u{9}' <= c && c <= '\u{d}') || c == ' ' || c == '\u{85}' || c == '\u{a0}' || c == '\u{1680}'
        || ('\u{2000}' <= c && c <= '\u{200a}') || c == '\u{2028}' || c == '\u{2029}' || c
        == '\u{202f}' || c == '\u{205f}' || c == '\u{3000}'
}

/// Whether the character is an ASCII digit.
fn digit(c: char) -> (yes: bool)
    ensures
        yes == is_digit(c),
{
    '0' <= c && c <= '9'
}

/// How far a value spells a word after one more character.
fn word_next(word: Word, first: bool, c: char) -> (next: Word)
    ensures
        next == word_step(word, first, c),
{
    if first {
        if c == 't' {
            Word::True(1)
        } else if c == 'f' {
            Word::False(1)
        } else if c == 'n' {
            Word::Null(1)
        } else {
            Word::No
        }
    } else {
        match word {
            Word::True(1) if c == 'r' => Word::True(2),
            Word::True(2) if c == 'u' => Word::True(3),
            Word::True(3) if c == 'e' => Word::Whole,
            Word::False(1) if c == 'a' => Word::False(2),
            Word::False(2) if c == 'l' => Word::False(3),
            Word::False(3) if c == 's' => Word::False(4),
            Word::False(4) if c == 'e' => Word::Whole,
            Word::Null(1) if c == 'u' => Word::Null(2),
            Word::Null(2) if c == 'l' => Word::Null(3),
            Word::Null(3) if c == 'l' => Word::Whole,
            Word::Whole if white_space(c) => Word::Whole,
            _ => Word::No,
        }
    }
}

/// How far a value spells a number after one more character.
fn number_next(number: Number, first: bool, c: char) -> (next: Number)
    ensures
        next == number_step(number, first, c),
{
    let blank = c == ' ' || c == '\t';
    let e = c == 'e' || c == 'E';
    if first {
        if c == '-' {
            Number::Sign
        } else if c == '0' {
            Number::Zero
        } else if digit(c) {
            Number::Digits
        } else {
            Number::No
        }
    } else {
        match number {
            Number::Sign => if c == '0' {
                Number::Zero
            } else if digit(c) {
                Number::Digits
            } else {
                Number::No
            },
            Number::Zero => if c == '.' {
                Number::Point
            } else if e {
                Number::Exponent
            } else if blank {
                Number::Blanks
            } else {
                Number::No
            },
            Number::Digits => if digit(c) {
                Number::Digits
            } else if c == '.' {
                Number::Point
            } else if e {
                Number::Exponent
            } else if blank {
                Number::Blanks
            } else {
                Number::No
            },
            Number::Point => if digit(c) {
                Number::Fraction
            } else {
                Number::No
            },
            Number::Fraction => if digit(c) {
                Number::Fraction
            } else if e {
                Number::Exponent
            } else if blank {
                Number::Blanks
            } else {
                Number::No
            },
            Number::Exponent => if c == '+' || c == '-' {
                Number::ExponentSign
            } else if digit(c) {
                Number::ExponentDigits
            } else {
                Number::No
            },
            Number::ExponentSign => if digit(c) {
                Number::ExponentDigits
            } else {
                Number::No
            },
            Number::ExponentDigits => if digit(c) {
                Number::ExponentDigits
            } else if blank {
                Number::Blanks
            } else {
                Number::No
            },
            Number::Blanks => if blank {
                Number::Blanks
            } else {
                Number::No
            },
            Number::No => Number::No,
        }
    }
}

/// What is known of a value without quotes after one more character.
fn unquoted_next(unquoted: Unquoted, first: bool, c: char) -> (next: Unquoted)
    ensures
        next == unquoted_step(unquoted, first, c),
{
    let number = number_next(unquoted.number, first, c);
    let counts = digit(c) && (number == Number::Zero || number == Number::Digits);
    Unquoted {
        word: word_next(unquoted.word, first, c),
        number,
        negative: unquoted.negative || (first && c == '-'),
        float: unquoted.float || number == Number::Point || number == Number::Exponent,
        magnitude: if !counts || unquoted.magnitude > 0xffff_ffff_ffff_ffff {
            unquoted.magnitude
        } else {
            unquoted.magnitude * 10 + ((c as u8 - 48) as u128)
        },
        quotes: if c == '\'' && unquoted.quotes < 3 {
            unquoted.quotes + 1
        } else {
            4
        },
    }
}

/// Whether the value spells `true`, `false`, `null` or a number so far.
fn complete(unquoted: Unquoted) -> (yes: bool)
    ensures
        yes == is_complete(unquoted),
{
    unquoted.word == Word::Whole || ((unquoted.number == Number::Zero || unquoted.number
        == Number::Digits || unquoted.number == Number::Fraction || unquoted.number
        == Number::ExponentDigits || unquoted.number == Number::Blanks) && (unquoted.float
        || if unquoted.negative {
        unquoted.magnitude <= 0x8000_0000_0000_0000
    } else {
        unquoted.magnitude <= 0xffff_ffff_ffff_ffff
    }))
}

impl Reader {
    /// The parser before the first character.
    fn new(root: bool) -> (reader: Reader)
        ensures
            reader@ == read_start(root),
    {
        let mut open: Vec<bool> = Vec::new();
        if root {
            open.push(true);
        }
        let reader = Reader {
            lex: Lex {
                mode: Mode::Gap,
                expect: if root {
                    Expect::Key
                } else {
                    Expect::Value
                },
                unquoted: Unquoted {
                    word: Word::No,
                    number: Number::No,
                    negative: false,
                    float: false,
                    magnitude: 0,
                    quotes: 0,
                },
                root,
                too_deep: false,
            },
            open,
        };
        assert(reader@.open =~= read_start(root).open);
        reader
    }

    /// The parser found a fault.
    fn stop(&mut self)
        ensures
            final(self)@ == stopped(old(self)@),
    {
        self.lex.mode = Mode::Stopped;
    }

    /// Goes on between tokens.
    fn look_for(&mut self, expect: Expect)
        ensures
            final(self)@ == between(old(self)@, expect),
    {
        self.lex.mode = Mode::Gap;
        self.lex.expect = expect;
    }

    /// Goes on in another mode.
    fn enter(&mut self, mode: Mode)
        ensures
            final(self)@ == reading(old(self)@, mode),
    {
        self.lex.mode = mode;
    }

    /// A value ended.
    fn value_ended(&mut self)
        ensures
            final(self)@ == after_value(old(self)@),
    {
        let n = self.open.len();
        let expect = if n == 0 {
            Expect::End
        } else if self.open[n - 1] {
            Expect::NextKey
        } else {
            Expect::NextItem
        };
        self.look_for(expect);
    }

    /// An array or object began.
    fn open_one(&mut self, object: bool)
        ensures
            final(self)@ == opened(old(self)@, object),
    {
        if self.open.len() >= MAX_HJSON_DEPTH {
            self.lex.mode = Mode::Stopped;
            self.lex.too_deep = true;
        } else {
            self.open.push(object);
            self.look_for(
                if object {
                    Expect::Key
                } else {
                    Expect::Item
                },
            );
        }
    }

    /// The innermost array or object ended.
    fn close_one(&mut self)
        ensures
            final(self)@ == closed(old(self)@),
    {
        if self.open.len() == 0 || (self.lex.root && self.open.len() == 1) {
            self.stop();
        } else {
            self.open.pop();
            self.value_ended();
        }
    }

    /// Reads the first character of a value.
    fn begin_value(&mut self, c: char)
        ensures
            final(self)@ == value_begins(old(self)@, c),
    {
        if c == '"' {
            self.enter(Mode::Quoted(false));
        } else if c == '[' {
            self.open_one(false);
        } else if c == '{' {
            self.open_one(true);
        } else if c == '\0' || c == '}' || c == ']' || c == ',' || c == ':' {
            self.stop();
        } else {
            self.lex.mode = Mode::Scalar;
            self.lex.unquoted = unquoted_next(
                Unquoted {
                    word: Word::No,
                    number: Number::No,
                    negative: false,
                    float: false,
                    magnitude: 0,
                    quotes: 0,
                },
                true,
                c,
            );
        }
    }

    /// Reads the first character of an element, or the end of the array.
    fn begin_item(&mut self, c: char)
        ensures
            final(self)@ == item_begins(old(self)@, c),
    {
        if c == ']' {
            let n = self.open.len();
            if n > 0 && !self.open[n - 1] {
                self.close_one();
            } else {
                self.stop();
            }
        } else {
            self.begin_value(c);
        }
    }

    /// Reads one more character of a key without quotes.
    fn in_key_name(&mut self, c: char)
        ensures
            final(self)@ == key_name(old(self)@, c),
    {
        if c == ':' {
            self.look_for(Expect::Value);
        } else if c == '\0' || c == '{' || c == '}' || c == '[' || c == ']' || c == ',' {
            self.stop();
        }
    }

    /// Reads the first character of a key, or the end of the object.
    fn begin_key(&mut self, c: char)
        ensures
            final(self)@ == key_begins(old(self)@, c),
    {
        if c == '}' {
            let n = self.open.len();
            if n > 0 && self.open[n - 1] {
                self.close_one();
            } else {
                self.stop();
            }
        } else if c == '"' {
            self.enter(Mode::Quoted(true));
        } else {
            self.enter(Mode::KeyName);
            self.in_key_name(c);
        }
    }

    /// Reads a character between tokens that is no blank and begins no comment.
    fn begin_token(&mut self, c: char)
        ensures
            final(self)@ == token_begins(old(self)@, c),
    {
        match self.lex.expect {
            Expect::Value => self.begin_value(c),
            Expect::Item => self.begin_item(c),
            Expect::NextItem => if c == ',' {
                self.look_for(Expect::Item);
            } else {
                self.begin_item(c);
            },
            Expect::Key => self.begin_key(c),
            Expect::NextKey => if c == ',' {
                self.look_for(Expect::Key);
            } else {
                self.begin_key(c);
            },
            Expect::Colon => if c == ':' {
                self.look_for(Expect::Value);
            } else {
                self.stop();
            },
            Expect::End => self.stop(),
        }
    }

    /// Reads a character between tokens.
    fn in_gap(&mut self, c: char, next: Option<char>)
        ensures
            final(self)@ == gap(old(self)@, c, next),
    {
        if c == ' ' || c == '\n' || c == '\t' || c == '\r' {
        } else if c == '#' {
            self.enter(Mode::LineComment);
        } else if c == '/' {
            match next {
                Some('/') => self.enter(Mode::LineComment),
                Some('*') => self.enter(Mode::BlockOpen),
                Some(_) => self.begin_token(c),
                None => self.stop(),
            }
        } else {
            self.begin_token(c);
        }
    }

    /// Reads one more character of a value without quotes.
    fn in_scalar(&mut self, c: char, next: Option<char>)
        ensures
            final(self)@ == scalar(old(self)@, c, next),
    {
        let line_ends = c == '\r' || c == '\n' || c == '\0';
        let follows = match next {
            Some('/') => true,
            Some('*') => true,
            _ => false,
        };
        let comment = c == '#' || (c == '/' && follows);
        if (line_ends || comment || c == ',' || c == '}' || c == ']') && complete(
            self.lex.unquoted,
        ) {
            self.value_ended();
            self.in_gap(c, next);
        } else if line_ends {
            self.value_ended();
        } else {
            let unquoted = unquoted_next(self.lex.unquoted, false, c);
            self.lex.mode = if unquoted.quotes == 3 {
                Mode::Multiline(0)
            } else {
                Mode::Scalar
            };
            self.lex.unquoted = unquoted;
        }
    }

    /// Reads one more character; `next` is the character after it, if there
    /// is one.
    pub fn take(&mut self, c: char, next: Option<char>)
        ensures
            final(self)@ == read_char(old(self)@, c, next),
    {
        match self.lex.mode {
            Mode::Stopped => {},
            Mode::Gap => self.in_gap(c, next),
            Mode::LineComment => if c == '\n' {
                self.enter(Mode::Gap);
            },
            Mode::BlockOpen => self.enter(Mode::Block(false)),
            Mode::Block(star) => if star && c == '/' {
                self.enter(Mode::Gap);
            } else {
                self.enter(Mode::Block(c == '*'));
            },
            Mode::Quoted(key) => if c == '"' {
                if key {
                    self.look_for(Expect::Colon);
                } else {
                    self.value_ended();
                }
            } else if c == '\\' {
                self.enter(Mode::Escape(key));
            },
            Mode::Escape(key) => self.enter(Mode::Quoted(key)),
            Mode::KeyName => self.in_key_name(c),
            Mode::Scalar => self.in_scalar(c, next),
            Mode::Multiline(quotes) => if c == '\'' {
                if quotes >= 2 {
                    self.value_ended();
                } else {
                    self.enter(Mode::Multiline(quotes + 1));
                }
            } else {
                self.enter(Mode::Multiline(0));
            },
        }
    }
}

/// The characters of a text.
fn chars_of(text: &str) -> (chars: Vec<char>)
    ensures
        chars@ == text@,
{
    let mut chars: Vec<char> = Vec::new();
    for c in it: text.chars()
        invariant
            chars@ == it.seq().take(it.index()),
    {
        chars.push(c);
    }
    chars
}

/// Whether more arrays and objects are open somewhere in the text than are
/// read, when the text is read as an object without braces (`root`) or as a
/// value.
fn nests_too_deep(chars: &Vec<char>, root: bool) -> (too_deep: bool)
    ensures
        too_deep == read(chars@, root, chars@.len()).lex.too_deep,
{
    let n = chars.len();
    let mut reader = Reader::new(root);
    let mut i: usize = 0;
    while i < n
        invariant
            n == chars@.len(),
            i <= n,
            reader@ == read(chars@, root, i as nat),
            !reader.lex.too_deep,
        decreases n - i,
    {
        let next = if i + 1 < n {
            Some(chars[i + 1])
        } else {
            None
        };
        reader.take(chars[i], next);
        i += 1;
        if reader.lex.too_deep {
            proof {
                assert(reader@.lex.mode == Mode::Stopped) by {
                    lemma_too_deep_is_stopped(chars@, root, i as nat);
                }
                lemma_stopped_stays(chars@, root, i as nat, n as nat);
            }
            return true;
        }
    }
    false
}

/// Whether an HJSON text nests no deeper than is read.
pub fn hjson_within_depth(text: &str) -> (fits: bool)
    ensures
        fits == hjson_fits(text@),
{
    let chars = chars_of(text);
    !nests_too_deep(&chars, true) && !nests_too_deep(&chars, false)
}

/// A parser that found the text too deep has stopped.
pub proof fn lemma_too_deep_is_stopped(text: Seq<char>, root: bool, n: nat)
    requires
        n <= text.len(),
        read(text, root, n).lex.too_deep,
    ensures
        read(text, root, n).lex.mode == Mode::Stopped,
    decreases n,
{
    if n > 0 {
        let before = read(text, root, (n - 1) as nat);
        if before.lex.too_deep {
            lemma_too_deep_is_stopped(text, root, (n - 1) as nat);
        }
    }
}

} // verus!
