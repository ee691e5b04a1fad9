//! What holds of the naming conventions for every key.

use crate::case::{
    assembled, is_lower, is_separator, is_upper, scan, scan_end, scan_start, scan_step, styled,
    words_of, Letters, RenameRule, Scan,
};
use vstd::prelude::*;

verus! {

/// A run of characters that the cut leaves in one piece: it holds no
/// separator, and no upper-case letter follows a lower-case letter in it.
pub open spec fn unbroken(run: Seq<char>) -> bool {
    &&& forall|i: int| 0 <= i < run.len() ==> !is_separator(#[trigger] run[i])
    &&& forall|i: int| 0 < i < run.len() ==> !(is_lower(run[i - 1]) && is_upper(#[trigger] run[i]))
}

/// A word: a run that is not empty.
pub open spec fn is_word(run: Seq<char>) -> bool {
    run.len() > 0 && unbroken(run)
}

/// Every element is a word.
pub open spec fn all_words(words: Seq<Seq<char>>) -> bool {
    forall|i: int| 0 <= i < words.len() ==> is_word(#[trigger] words[i])
}

/// The words, each written as its place asks.
pub open spec fn styled_words(words: Seq<Seq<char>>, first: Letters, rest: Letters) -> Seq<
    Seq<char>,
> {
    Seq::new(
        words.len(),
        |i: int|
            styled(
                if i == 0 {
                    first
                } else {
                    rest
                },
                words[i],
            ),
    )
}

/// A convention that puts a separator between its words.
pub open spec fn keeps_words_apart(rule: RenameRule) -> bool {
    rule.separator().len() == 1
}

proof fn lemma_scan_keeps_words(state: Scan, text: Seq<char>)
    requires
        all_words(state.words),
        unbroken(state.word),
    ensures
        all_words(scan(state, text).words),
        unbroken(scan(state, text).word),
    decreases text.len(),
{
    if text.len() > 0 {
        lemma_scan_keeps_words(state, text.drop_last());
        let before = scan(state, text.drop_last());
        let after = scan_step(before, text.last());
        assert(unbroken(after.word));
    }
}

/// Every word of a key is a word: not empty, and left whole by the cut.
pub proof fn lemma_words_are_words(key: Seq<char>)
    ensures
        all_words(words_of(key)),
{
    lemma_scan_keeps_words(scan_start(), key);
}

proof fn lemma_scan_concat(state: Scan, a: Seq<char>, b: Seq<char>)
    ensures
        scan(state, a + b) == scan(scan(state, a), b),
    decreases b.len(),
{
    if b.len() > 0 {
        assert((a + b).drop_last() =~= a + b.drop_last());
        lemma_scan_concat(state, a, b.drop_last());
    }
}

proof fn lemma_scan_run(state: Scan, run: Seq<char>)
    requires
        state.word.len() == 0,
        unbroken(run),
    ensures
        scan(state, run).words == state.words,
        scan(state, run).word == run,
    decreases run.len(),
{
    if run.len() > 0 {
        let init = run.drop_last();
        assert(unbroken(init));
        lemma_scan_run(state, init);
    }
}

proof fn lemma_scan_separator(state: Scan, separator: Seq<char>)
    requires
        separator.len() == 1,
        is_separator(separator[0]),
    ensures
        scan(state, separator).words == scan_end(state),
        scan(state, separator).word == Seq::<char>::empty(),
{
    assert(scan(state, separator.drop_last()) == state);
}

/// A word stays a word in whatever case its letters are written.
pub proof fn lemma_styled_word_is_word(letters: Letters, word: Seq<char>)
    requires
        is_word(word),
    ensures
        is_word(styled(letters, word)),
{
}

/// Writing a word in one case and then in another gives what the second
/// alone gives.
pub proof fn lemma_styled_twice(second: Letters, first: Letters, word: Seq<char>)
    ensures
        styled(second, styled(first, word)) == styled(second, word),
{
}

proof fn lemma_scan_assembled(
    words: Seq<Seq<char>>,
    separator: Seq<char>,
    first: Letters,
    rest: Letters,
)
    requires
        all_words(words),
        words.len() > 0,
        separator.len() == 1,
        is_separator(separator[0]),
    ensures
        scan(scan_start(), assembled(words, separator, first, rest)).words == styled_words(
            words,
            first,
            rest,
        ).drop_last(),
        scan(scan_start(), assembled(words, separator, first, rest)).word == styled_words(
            words,
            first,
            rest,
        ).last(),
    decreases words.len(),
{
    if words.len() == 1 {
        lemma_styled_word_is_word(first, words[0]);
        lemma_scan_run(scan_start(), styled(first, words[0]));
    } else {
        let front = words.drop_last();
        assert(all_words(front));
        lemma_scan_assembled(front, separator, first, rest);
        let head = assembled(front, separator, first, rest);
        let tail = styled(rest, words.last());
        let after_head = scan(scan_start(), head);
        lemma_styled_word_is_word(
            if front.len() - 1 == 0 {
                first
            } else {
                rest
            },
            front[front.len() - 1],
        );
        assert(scan_end(after_head) =~= styled_words(front, first, rest));
        lemma_scan_concat(scan_start(), head, separator);
        lemma_scan_separator(after_head, separator);
        let after_separator = scan(scan_start(), head + separator);
        lemma_scan_concat(scan_start(), head + separator, tail);
        lemma_styled_word_is_word(rest, words.last());
        lemma_scan_run(after_separator, tail);
    }
}

/// Put together with a separator and cut again, words come back as they
/// were written.
pub proof fn lemma_words_of_assembled(
    words: Seq<Seq<char>>,
    separator: Seq<char>,
    first: Letters,
    rest: Letters,
)
    requires
        all_words(words),
        separator.len() == 1,
        is_separator(separator[0]),
    ensures
        words_of(assembled(words, separator, first, rest)) == styled_words(words, first, rest),
{
    if words.len() > 0 {
        lemma_scan_assembled(words, separator, first, rest);
        lemma_styled_word_is_word(
            if words.len() - 1 == 0 {
                first
            } else {
                rest
            },
            words[words.len() - 1],
        );
    }
}

/// Words that were written in some case, put together, read as the words
/// themselves put together.
pub proof fn lemma_assembled_styled(
    words: Seq<Seq<char>>,
    written_first: Letters,
    written_rest: Letters,
    separator: Seq<char>,
    first: Letters,
    rest: Letters,
)
    ensures
        assembled(styled_words(words, written_first, written_rest), separator, first, rest)
            == assembled(words, separator, first, rest),
    decreases words.len(),
{
    let written = styled_words(words, written_first, written_rest);
    if words.len() == 1 {
        lemma_styled_twice(first, written_first, words[0]);
    } else if words.len() > 1 {
        lemma_assembled_styled(
            words.drop_last(),
            written_first,
            written_rest,
            separator,
            first,
            rest,
        );
        assert(written.drop_last() =~= styled_words(
            words.drop_last(),
            written_first,
            written_rest,
        ));
        lemma_styled_twice(rest, written_rest, words.last());
    }
}

/// A key written in a convention that keeps its words apart has the same
/// form in every convention as the key itself.
pub proof fn lemma_variant_has_same_variants(written: RenameRule, rule: RenameRule, key: Seq<char>)
    requires
        keeps_words_apart(written),
    ensures
        rule.applied(written.applied(key)) == rule.applied(key),
{
    let words = words_of(key);
    lemma_words_are_words(key);
    lemma_words_of_assembled(
        words,
        written.separator(),
        written.first_letters(),
        written.other_letters(),
    );
    lemma_assembled_styled(
        words,
        written.first_letters(),
        written.other_letters(),
        rule.separator(),
        rule.first_letters(),
        rule.other_letters(),
    );
}

/// A key that a convention with a separator has written is left unchanged
/// when that convention writes it again.
pub proof fn lemma_applied_is_fixed_point(rule: RenameRule, key: Seq<char>)
    requires
        keeps_words_apart(rule),
    ensures
        rule.applied(rule.applied(key)) == rule.applied(key),
{
    lemma_variant_has_same_variants(rule, rule, key);
}

} // verus!
