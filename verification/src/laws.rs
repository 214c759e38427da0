//! What holds of the verdict on every phrase.

use vstd::prelude::*;
use crate::glyph::{classified, lemma_classified_letters};
use crate::letter::{alphabetic, fold};
use crate::phrase::{folded_letters, palindrome};
use crate::window::{lemma_letterless_mirrored, lemma_lone_letter_mirrored};
use crate::scan::{is_palindrome, is_palindrome_classic};

verus! {

/// Asking again gives the same answer: the verdict on a phrase is settled by
/// its characters and by nothing else.
pub proof fn law_verdict_is_settled(first: &str, again: &str)
    requires
        first@ == again@,
    ensures
        is_palindrome(first) == is_palindrome(again),
        is_palindrome_classic(first) == is_palindrome_classic(again),
{
}

/// Pairing the letters from both ends and converging on the middle give the
/// same verdict on every phrase.
pub proof fn law_strategies_agree(phrase: &str)
    ensures
        is_palindrome(phrase) == is_palindrome_classic(phrase),
{
}

/// A text in which nothing is a letter is a palindrome. The empty text is
/// such a text.
pub proof fn law_no_letter(text: Seq<char>)
    requires
        forall|k: int| 0 <= k < text.len() ==> !alphabetic(#[trigger] text[k]),
    ensures
        palindrome(text),
{
    let glyphs = classified(text);
    lemma_classified_letters(text);
    lemma_letterless_mirrored(glyphs, 0, glyphs.len() as int);
    assert(glyphs.subrange(0, glyphs.len() as int) =~= glyphs);
}

/// A text with a single letter is a palindrome, whatever stands around the
/// letter.
pub proof fn law_one_letter(text: Seq<char>, at: int)
    requires
        0 <= at < text.len(),
        forall|k: int| 0 <= k < text.len() && k != at ==> !alphabetic(#[trigger] text[k]),
    ensures
        palindrome(text),
{
    let glyphs = classified(text);
    lemma_classified_letters(text);
    lemma_lone_letter_mirrored(glyphs, 0, at, glyphs.len() as int);
    assert(glyphs.subrange(0, glyphs.len() as int) =~= glyphs);
}

/// Whether `b` is `a` with the ASCII case of some characters changed and
/// every letter still a letter: position by position the two fold to the
/// same character and are classified alike.
pub open spec fn case_variants(a: Seq<char>, b: Seq<char>) -> bool {
    &&& a.len() == b.len()
    &&& forall|k: int|
        0 <= k < a.len() ==> fold(#[trigger] a[k]) == fold(b[k]) && alphabetic(a[k]) == alphabetic(
            b[k],
        )
}

/// Case does not matter: two texts that differ only in the ASCII case of
/// their characters have the same folded letters and get the same verdict.
pub proof fn law_case_is_ignored(a: Seq<char>, b: Seq<char>)
    requires
        case_variants(a, b),
    ensures
        folded_letters(a) == folded_letters(b),
        palindrome(a) == palindrome(b),
    decreases a.len(),
{
    if a.len() > 0 {
        law_case_is_ignored(a.drop_last(), b.drop_last());
        lemma_last_letter(a);
        lemma_last_letter(b);
    }
}

/// What is not a letter does not matter: putting a character that is not a
/// letter into a text, anywhere, leaves its folded letters and so its verdict
/// as they were.
pub proof fn law_inserting_a_non_letter(text: Seq<char>, at: int, c: char)
    requires
        0 <= at <= text.len(),
        !alphabetic(c),
    ensures
        folded_letters(text.insert(at, c)) == folded_letters(text),
        palindrome(text.insert(at, c)) == palindrome(text),
{
    let keep = |c: char| alphabetic(c);
    let head = text.subrange(0, at);
    let tail = text.subrange(at, text.len() as int);
    assert(text =~= head + tail);
    head.lemma_filter_push(c, keep);
}

/// What is not a letter does not matter: taking a character that is not a
/// letter out of a text leaves its folded letters and so its verdict as they
/// were.
pub proof fn law_removing_a_non_letter(text: Seq<char>, at: int)
    requires
        0 <= at < text.len(),
        !alphabetic(text[at]),
    ensures
        folded_letters(text.remove(at)) == folded_letters(text),
        palindrome(text.remove(at)) == palindrome(text),
{
    assert(text.remove(at).insert(at, text[at]) =~= text);
    law_inserting_a_non_letter(text.remove(at), at, text[at]);
}

/// The folded letters of a text that is not empty are those of all but its
/// last character, followed by the last character folded if it is a letter.
proof fn lemma_last_letter(text: Seq<char>)
    requires
        text.len() > 0,
    ensures
        folded_letters(text) == if alphabetic(text.last()) {
            folded_letters(text.drop_last()).push(fold(text.last()))
        } else {
            folded_letters(text.drop_last())
        },
{
    let keep = |c: char| alphabetic(c);
    assert(text =~= text.drop_last().push(text.last()));
    text.drop_last().lemma_filter_push(text.last(), keep);
}

} // verus!
