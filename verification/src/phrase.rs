//! What it means for a text to be a palindrome.

use vstd::prelude::*;
use crate::letter::{alphabetic, fold};

verus! {

/// The letters of `text`, in order, each in its folded form.
pub open spec fn folded_letters(text: Seq<char>) -> Seq<char> {
    text.filter(|c: char| alphabetic(c)).map_values(|c: char| fold(c))
}

/// Whether `s` equals its own reversal.
pub open spec fn symmetric(s: Seq<char>) -> bool {
    s =~= s.reverse()
}

/// Whether `text` is a palindrome: its folded letters read the same forwards
/// and backwards. A text without letters is one.
pub open spec fn palindrome(text: Seq<char>) -> bool {
    symmetric(folded_letters(text))
}

/// A sequence with a first and a last character is its own reversal exactly
/// when the two agree and what lies between them is its own reversal.
pub proof fn lemma_symmetric_peel(a: char, middle: Seq<char>, b: char)
    ensures
        symmetric(seq![a] + middle + seq![b]) == (a == b && symmetric(middle)),
{
    let whole = seq![a] + middle + seq![b];
    let n = middle.len() as int;
    assert forall|k: int| 0 <= k < n implies whole[k + 1] == middle[k] by {}
    if symmetric(whole) {
        assert(whole.reverse()[0] == whole[n + 1]);
    }
}

} // verus!
