//! What counts as a letter, and when two letters are the same letter.

use vstd::prelude::*;

verus! {

/// Whether `c` is `Alphabetic` in the sense of Unicode, as
/// `char::is_alphabetic` answers it.
pub uninterp spec fn alphabetic(c: char) -> bool;

/// The ASCII lower-case form of `c`: `'A'..='Z'` move to `'a'..='z'`, every
/// other character stays as it is.
pub open spec fn fold(c: char) -> char {
    if 'A' <= c && c <= 'Z' {
        ((c as u32) + 32) as char
    } else {
        c
    }
}

/// Trusted, not proved: `char::is_alphabetic` is a function of the character
/// alone. Its answer is given the name [`alphabetic`]; nothing more is claimed
/// of it, so no proof here knows which characters are letters.
pub assume_specification[ char::is_alphabetic ](c: char) -> (r: bool)
    ensures
        r == alphabetic(c),
;

/// Trusted, not proved: `char::to_ascii_lowercase` maps the ASCII letters
/// `'A'` to `'Z'` onto `'a'` to `'z'` and returns every other character
/// unchanged, which is what [`fold`] says.
pub assume_specification[ char::to_ascii_lowercase ](c: &char) -> (r: char)
    ensures
        r == fold(*c),
;

/// Whether `a` and `b` are the same letter once ASCII case is set aside.
pub fn same_letter(a: char, b: char) -> (same: bool)
    ensures
        same == (fold(a) == fold(b)),
{
    a.to_ascii_lowercase() == b.to_ascii_lowercase()
}

} // verus!
