//! Deciding whether a phrase is a palindrome, going by its letters alone.
//!
//! A phrase is a palindrome when its letters, taken without regard to ASCII
//! case, read the same in both directions. Everything that is not a letter
//! is passed over, so `"A man, a plan, a canal, Panama!"` is one.
//!
//! * [`letter`] says what a letter is and when two letters are the same.
//! * [`phrase`] says what it means for a text to be a palindrome.
//! * [`glyph`] holds a phrase whose characters have been classified.
//! * [`window`] collects the facts about stretches of glyphs that the scans
//!   rest on.
//! * [`scan`] decides the question in two ways, [`is_palindrome`] and
//!   [`is_palindrome_classic`].
//! * [`laws`] states what holds of the verdict on every phrase.

pub mod letter;
pub mod phrase;
pub mod glyph;
pub mod window;
pub mod scan;
pub mod laws;

pub use crate::scan::{is_palindrome, is_palindrome_classic};
