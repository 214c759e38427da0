//! A phrase with every character classified.
//!
//! Whether a character is a letter is a question for the Unicode tables. A
//! [`Glyph`] carries the answer along with the character, so that everything
//! after [`classify`] works on plain values.

use vstd::prelude::*;
use vstd::std_specs::iter::IteratorSpec;
use crate::letter::{alphabetic, fold};
use crate::phrase::{folded_letters, symmetric};

verus! {

/// One character of a phrase, with the answer to "is it a letter?" attached.
///
/// The mark is plain data. The scans go by it and never ask the question
/// again; [`classify`] is what makes the marks true of the symbols.
#[derive(Clone, Copy, Debug, PartialEq, Eq)]
pub struct Glyph {
    pub symbol: char,
    pub letter: bool,
}

/// The glyph that stands for `c` in a classified phrase.
pub open spec fn glyph_of(c: char) -> Glyph {
    Glyph { symbol: c, letter: alphabetic(c) }
}

/// The phrase `text`, position by position, with each character classified
/// by [`alphabetic`].
pub open spec fn classified(text: Seq<char>) -> Seq<Glyph> {
    text.map_values(|c: char| glyph_of(c))
}

/// Picks the glyphs that are marked as letters.
pub open spec fn is_letter() -> spec_fn(Glyph) -> bool {
    |g: Glyph| g.letter
}

/// Reads a glyph without regard to ASCII case.
pub open spec fn folded() -> spec_fn(Glyph) -> char {
    |g: Glyph| fold(g.symbol)
}

/// The symbols of the glyphs marked as letters, in order, each in its folded
/// form.
pub open spec fn letters(glyphs: Seq<Glyph>) -> Seq<char> {
    glyphs.filter(is_letter()).map_values(folded())
}

/// Whether the letters among `glyphs` read the same forwards and backwards.
pub open spec fn mirrored(glyphs: Seq<Glyph>) -> bool {
    symmetric(letters(glyphs))
}

/// Classifying a text and then keeping the marked glyphs is the same as
/// keeping the letters of the text and classifying those.
proof fn lemma_classify_then_keep(text: Seq<char>)
    ensures
        classified(text).filter(is_letter()) == classified(text.filter(|c: char| alphabetic(c))),
    decreases text.len(),
{
    let keep = |c: char| alphabetic(c);
    if text.len() == 0 {
        assert(classified(text).filter(is_letter()) =~= Seq::<Glyph>::empty()) by {
            reveal(Seq::filter);
        }
        assert(text.filter(keep) =~= Seq::<char>::empty()) by {
            reveal(Seq::filter);
        }
    } else {
        let front = text.drop_last();
        let last = text.last();
        lemma_classify_then_keep(front);
        assert(text =~= front.push(last));
        assert(classified(text) =~= classified(front).push(glyph_of(last)));
        front.lemma_filter_push(last, keep);
        classified(front).lemma_filter_push(glyph_of(last), is_letter());
        if alphabetic(last) {
            assert(classified(front.filter(keep).push(last)) =~= classified(
                front.filter(keep),
            ).push(glyph_of(last)));
        }
    }
}

/// The letters among the glyphs of a classified text are the folded letters
/// of the text.
pub proof fn lemma_classified_letters(text: Seq<char>)
    ensures
        letters(classified(text)) == folded_letters(text),
{
    lemma_classify_then_keep(text);
}

/// Classifies every character of `phrase`, keeping the order.
pub fn classify(phrase: &str) -> (glyphs: Vec<Glyph>)
    ensures
        glyphs@ == classified(phrase@),
{
    let mut glyphs: Vec<Glyph> = Vec::new();
    let mut rest = phrase.chars();
    loop
        invariant
            rest.obeys_prophetic_iter_laws(),
            rest.decrease() is Some,
            classified(phrase@) =~= glyphs@ + classified(rest.remaining()),
        ensures
            glyphs@ == classified(phrase@),
        decreases rest.decrease()->0,
    {
        let ghost unread = rest.remaining();
        match rest.next() {
            Some(c) => {
                let letter = c.is_alphabetic();
                glyphs.push(Glyph { symbol: c, letter });
                assert(classified(unread) =~= seq![glyph_of(c)] + classified(rest.remaining()));
            },
            None => {
                break ;
            },
        }
    }
    glyphs
}

} // verus!
