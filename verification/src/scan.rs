//! Two ways of deciding whether a phrase is a palindrome.
//!
//! Both classify the phrase once and then work on the glyphs. One pairs the
//! letters it meets walking in from the front with the letters it meets
//! walking in from the back; the other moves two indices towards each other.

use vstd::prelude::*;
use crate::glyph::{classify, lemma_classified_letters, mirrored, Glyph};
use crate::letter::same_letter;
use crate::phrase::palindrome;
use crate::window::{
    lemma_letterless_mirrored, lemma_lone_letter_mirrored, lemma_outer_pair, lemma_trim,
    letterless,
};

verus! {

/// The position of the first letter at or after `from`, if there is one.
fn next_letter(glyphs: &[Glyph], from: usize) -> (found: Option<usize>)
    requires
        from <= glyphs@.len(),
    ensures
        match found {
            Some(at) => from <= at < glyphs@.len() && glyphs@[at as int].letter && letterless(
                glyphs@,
                from as int,
                at as int,
            ),
            None => letterless(glyphs@, from as int, glyphs@.len() as int),
        },
{
    let mut at: usize = from;
    while at < glyphs.len()
        invariant
            from <= at <= glyphs@.len(),
            letterless(glyphs@, from as int, at as int),
        decreases glyphs@.len() - at,
    {
        if glyphs[at].letter {
            return Some(at);
        }
        at += 1;
    }
    None
}

/// The position of the last letter before `before`, if there is one.
fn prev_letter(glyphs: &[Glyph], before: usize) -> (found: Option<usize>)
    requires
        before <= glyphs@.len(),
    ensures
        match found {
            Some(at) => at < before && glyphs@[at as int].letter && letterless(
                glyphs@,
                at + 1,
                before as int,
            ),
            None => letterless(glyphs@, 0, before as int),
        },
{
    let mut end: usize = before;
    while end > 0
        invariant
            end <= before <= glyphs@.len(),
            letterless(glyphs@, end as int, before as int),
        decreases end,
    {
        if glyphs[end - 1].letter {
            return Some(end - 1);
        }
        end -= 1;
    }
    None
}

/// Decides [`mirrored`] by pairing the letters met from the front with the
/// letters met from the back, until the two walks cross.
pub fn mirrored_by_pairing(glyphs: &[Glyph]) -> (verdict: bool)
    ensures
        verdict == mirrored(glyphs@),
{
    let mut front: usize = 0;
    let mut back: usize = glyphs.len();
    assert(glyphs@.subrange(0, back as int) =~= glyphs@);
    loop
        invariant
            front <= back <= glyphs@.len(),
            mirrored(glyphs@) == mirrored(glyphs@.subrange(front as int, back as int)),
        decreases back - front,
    {
        let first = match next_letter(glyphs, front) {
            Some(at) => at,
            None => {
                proof {
                    lemma_letterless_mirrored(glyphs@, front as int, back as int);
                }
                return true;
            },
        };
        let last = match prev_letter(glyphs, back) {
            Some(at) => at,
            None => {
                proof {
                    lemma_letterless_mirrored(glyphs@, front as int, back as int);
                }
                return true;
            },
        };
        if !(first < last) {
            proof {
                if first >= back || last < front {
                    lemma_letterless_mirrored(glyphs@, front as int, back as int);
                } else {
                    lemma_lone_letter_mirrored(glyphs@, front as int, first as int, back as int);
                }
            }
            return true;
        }
        proof {
            lemma_trim(glyphs@, front as int, first as int, last + 1, back as int);
            lemma_outer_pair(glyphs@, first as int, last as int);
        }
        if !same_letter(glyphs[first].symbol, glyphs[last].symbol) {
            return false;
        }
        front = first + 1;
        back = last;
    }
}

/// Decides [`mirrored`] with two indices that start at the ends and move
/// towards each other, stepping over whatever is not a letter.
pub fn mirrored_by_converging(glyphs: &[Glyph]) -> (verdict: bool)
    ensures
        verdict == mirrored(glyphs@),
{
    if glyphs.len() == 0 {
        return true;
    }
    let mut first: usize = 0;
    let mut last: usize = glyphs.len() - 1;
    assert(glyphs@.subrange(0, last + 1) =~= glyphs@);
    while first < last
        invariant
            first <= last + 1,
            last < glyphs@.len(),
            mirrored(glyphs@) == mirrored(glyphs@.subrange(first as int, last + 1)),
        decreases last + 1 - first,
    {
        if !glyphs[first].letter {
            proof {
                lemma_trim(glyphs@, first as int, first + 1, last + 1, last + 1);
            }
            first += 1;
            continue ;
        }
        if !glyphs[last].letter {
            proof {
                lemma_trim(glyphs@, first as int, first as int, last as int, last + 1);
            }
            last -= 1;
            continue ;
        }
        proof {
            lemma_outer_pair(glyphs@, first as int, last as int);
        }
        if !same_letter(glyphs[first].symbol, glyphs[last].symbol) {
            return false;
        }
        first += 1;
        last -= 1;
    }
    true
}

/// What [`is_palindrome`] and [`is_palindrome_classic`] stand for where a
/// contract or a proof names them: whether the characters of `phrase` form
/// a palindrome.
pub open spec fn reads_as_palindrome(phrase: &str) -> bool {
    palindrome(phrase@)
}

/// Whether `phrase` is a palindrome, decided by pairing its letters from
/// both ends.
#[verifier::when_used_as_spec(reads_as_palindrome)]
pub fn is_palindrome(phrase: &str) -> (verdict: bool)
    ensures
        verdict == palindrome(phrase@),
{
    let glyphs = classify(phrase);
    proof {
        lemma_classified_letters(phrase@);
    }
    mirrored_by_pairing(glyphs.as_slice())
}

/// Whether `phrase` is a palindrome, decided by two converging indices.
#[verifier::when_used_as_spec(reads_as_palindrome)]
pub fn is_palindrome_classic(phrase: &str) -> (verdict: bool)
    ensures
        verdict == palindrome(phrase@),
{
    let glyphs = classify(phrase);
    proof {
        lemma_classified_letters(phrase@);
    }
    mirrored_by_converging(glyphs.as_slice())
}

} // verus!
