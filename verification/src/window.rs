//! Facts about stretches of glyphs.
//!
//! Both scans narrow a window of glyphs from its two ends. These lemmas say
//! what narrowing does to the letters inside the window.

use vstd::prelude::*;
use crate::glyph::{is_letter, letters, mirrored, Glyph};
use crate::letter::fold;
use crate::phrase::lemma_symmetric_peel;

verus! {

/// Whether no glyph of `glyphs` at a position from `lo` up to, not
/// including, `hi` is marked as a letter.
pub open spec fn letterless(glyphs: Seq<Glyph>, lo: int, hi: int) -> bool {
    forall|k: int| lo <= k < hi ==> !(#[trigger] glyphs[k]).letter
}

/// The letters of a concatenation are the letters of its parts, in order.
pub proof fn lemma_letters_concat(a: Seq<Glyph>, b: Seq<Glyph>)
    ensures
        letters(a + b) == letters(a) + letters(b),
{
}

/// A single glyph contributes its folded symbol if it is marked as a letter,
/// and nothing otherwise.
pub proof fn lemma_letters_one(g: Glyph)
    ensures
        letters(seq![g]) == if g.letter {
            seq![fold(g.symbol)]
        } else {
            Seq::<char>::empty()
        },
{
    let none = Seq::<Glyph>::empty();
    assert(none.filter(is_letter()) =~= none) by {
        reveal(Seq::filter);
    }
    none.lemma_filter_push(g, is_letter());
}

/// A stretch without letters contributes nothing.
pub proof fn lemma_letters_none(glyphs: Seq<Glyph>)
    requires
        letterless(glyphs, 0, glyphs.len() as int),
    ensures
        letters(glyphs) == Seq::<char>::empty(),
    decreases glyphs.len(),
{
    if glyphs.len() == 0 {
        assert(glyphs.filter(is_letter()) =~= glyphs) by {
            reveal(Seq::filter);
        }
    } else {
        let front = glyphs.drop_last();
        let last = glyphs.last();
        assert(glyphs =~= front + seq![last]);
        lemma_letters_none(front);
        lemma_letters_one(last);
    }
}

/// Stretches without letters at either end of a window can be cut off
/// without changing the letters of the window.
pub proof fn lemma_trim(glyphs: Seq<Glyph>, lo: int, inner_lo: int, inner_hi: int, hi: int)
    requires
        0 <= lo <= inner_lo <= inner_hi <= hi <= glyphs.len(),
        letterless(glyphs, lo, inner_lo),
        letterless(glyphs, inner_hi, hi),
    ensures
        letters(glyphs.subrange(lo, hi)) == letters(glyphs.subrange(inner_lo, inner_hi)),
{
    let head = glyphs.subrange(lo, inner_lo);
    let core = glyphs.subrange(inner_lo, inner_hi);
    let tail = glyphs.subrange(inner_hi, hi);
    assert(glyphs.subrange(lo, hi) =~= head + core + tail);
    lemma_letters_none(head);
    lemma_letters_none(tail);
    lemma_letters_concat(head + core, tail);
}

/// A window that starts and ends on a letter is mirrored exactly when those
/// two letters agree and the window between them is mirrored.
pub proof fn lemma_outer_pair(glyphs: Seq<Glyph>, i: int, j: int)
    requires
        0 <= i < j < glyphs.len(),
        glyphs[i].letter,
        glyphs[j].letter,
    ensures
        mirrored(glyphs.subrange(i, j + 1)) == (fold(glyphs[i].symbol) == fold(glyphs[j].symbol)
            && mirrored(glyphs.subrange(i + 1, j))),
{
    let first = seq![glyphs[i]];
    let between = glyphs.subrange(i + 1, j);
    let last = seq![glyphs[j]];
    assert(glyphs.subrange(i, j + 1) =~= first + between + last);
    lemma_letters_one(glyphs[i]);
    lemma_letters_one(glyphs[j]);
    lemma_letters_concat(first, between);
    lemma_letters_concat(first + between, last);
    lemma_symmetric_peel(fold(glyphs[i].symbol), letters(between), fold(glyphs[j].symbol));
}

/// A window with no letter in it is mirrored.
pub proof fn lemma_letterless_mirrored(glyphs: Seq<Glyph>, lo: int, hi: int)
    requires
        0 <= lo <= hi <= glyphs.len(),
        letterless(glyphs, lo, hi),
    ensures
        mirrored(glyphs.subrange(lo, hi)),
{
    lemma_trim(glyphs, lo, hi, hi, hi);
}

/// A window whose only possible letter sits at `at` is mirrored.
pub proof fn lemma_lone_letter_mirrored(glyphs: Seq<Glyph>, lo: int, at: int, hi: int)
    requires
        0 <= lo <= at < hi <= glyphs.len(),
        letterless(glyphs, lo, at),
        letterless(glyphs, at + 1, hi),
    ensures
        mirrored(glyphs.subrange(lo, hi)),
{
    lemma_trim(glyphs, lo, at, at + 1, hi);
}

} // verus!
