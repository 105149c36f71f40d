//! The text under the parser, and the primitives every rule is built from.

use crate::text::{
    chars_of, range_equals, range_spells, same_ignoring_case, scan, scan_class, skip_spaces,
    CharClass,
};
use crate::types::{ParseError, ParseErrorKind};
use vstd::prelude::*;

verus! {

/// Where the word that starts at `pos` ends.
pub open spec fn word_end(s: Seq<char>, pos: int) -> int {
    scan(s, pos, CharClass::Word)
}

/// The word that starts at `pos` is `word`, in any case of letters.
pub open spec fn keyword_at(s: Seq<char>, pos: int, word: Seq<char>) -> bool {
    0 <= pos <= s.len() && same_ignoring_case(s.subrange(pos, word_end(s, pos)), word)
}

/// The character at `pos` is `c`.
pub open spec fn symbol_at(s: Seq<char>, pos: int, c: char) -> bool {
    0 <= pos < s.len() && s[pos] == c
}

/// The error of kind `kind` at `pos`.
pub open spec fn fail(pos: int, kind: ParseErrorKind) -> ParseError {
    ParseError { position: pos as usize, kind }
}

/// A query text together with its characters, laid out for indexing.
pub struct Source<'a> {
    text: &'a str,
    chars: Vec<char>,
}

impl<'a> View for Source<'a> {
    type V = Seq<char>;

    closed spec fn view(&self) -> Seq<char> {
        self.chars@
    }
}

impl<'a> Source<'a> {
    #[verifier::type_invariant]
    spec fn chars_match_text(&self) -> bool {
        self.chars@ == self.text@
    }

    pub fn new(text: &'a str) -> (r: Self)
        ensures
            r@ == text@,
    {
        Source { text, chars: chars_of(text) }
    }

    /// The characters.
    pub fn chars(&self) -> (r: &Vec<char>)
        ensures
            r@ == self@,
    {
        &self.chars
    }

    /// The number of characters.
    pub fn len(&self) -> (n: usize)
        ensures
            n == self@.len(),
    {
        self.chars.len()
    }

    /// The character at `pos`.
    pub fn at(&self, pos: usize) -> (c: char)
        requires
            pos < self@.len(),
        ensures
            c == self@[pos as int],
    {
        self.chars[pos]
    }

    /// Whether the character at `pos` is `c`.
    pub fn symbol(&self, pos: usize, c: char) -> (r: bool)
        ensures
            r == symbol_at(self@, pos as int, c),
            r ==> pos + 1 <= self@.len() <= usize::MAX,
    {
        pos < self.chars.len() && self.chars[pos] == c
    }

    /// Whether a word starts at `pos`.
    pub fn word_starts(&self, pos: usize) -> (r: bool)
        ensures
            r == (pos < self@.len() && crate::text::is_word_start(self@[pos as int])),
    {
        pos < self.chars.len() && crate::text::char_is_word_start(self.chars[pos])
    }

    /// Whether a digit stands at `pos`.
    pub fn digit_starts(&self, pos: usize) -> (r: bool)
        ensures
            r == (pos < self@.len() && crate::text::is_digit(self@[pos as int])),
    {
        pos < self.chars.len() && crate::text::char_is_digit(self.chars[pos])
    }

    /// The end of the run of `class` characters that starts at `pos`.
    pub fn scan(&self, pos: usize, class: CharClass) -> (end: usize)
        requires
            pos <= self@.len(),
        ensures
            end == scan(self@, pos as int, class),
            pos <= end <= self@.len() <= usize::MAX,
            pos < self@.len() && crate::text::class_has(class, self@[pos as int]) ==> pos < end,
    {
        scan_class(&self.chars, pos, class)
    }

    /// The first position at or after `pos` that holds no white space.
    pub fn skip_spaces(&self, pos: usize) -> (end: usize)
        requires
            pos <= self@.len(),
        ensures
            end == skip_spaces(self@, pos as int),
            pos <= end <= self@.len() <= usize::MAX,
    {
        scan_class(&self.chars, pos, CharClass::Space)
    }

    /// The end of the word at `pos` if that word is `word` in any case of
    /// letters.
    pub fn keyword(&self, pos: usize, word: &str) -> (r: Option<usize>)
        requires
            pos <= self@.len(),
        ensures
            r is Some == keyword_at(self@, pos as int, word@),
            r matches Some(end) ==> end == word_end(self@, pos as int) && end == pos + word@.len()
                && end <= self@.len() <= usize::MAX,
    {
        let end = scan_class(&self.chars, pos, CharClass::Word);
        if range_spells(&self.chars, pos, end, word) {
            assert(self@.subrange(pos as int, end as int).len() == word@.len());
            Some(end)
        } else {
            None
        }
    }

    /// Whether the characters from `start` to `end` are exactly `word`.
    pub fn equals(&self, start: usize, end: usize, word: &str) -> (r: bool)
        requires
            start <= end <= self@.len(),
        ensures
            r == (self@.subrange(start as int, end as int) == word@),
    {
        range_equals(&self.chars, start, end, word)
    }

    /// The characters from `start` to `end` as a string.
    pub fn slice(&self, start: usize, end: usize) -> (r: String)
        requires
            start <= end <= self@.len(),
        ensures
            r@ == self@.subrange(start as int, end as int),
    {
        proof {
            use_type_invariant(self);
        }
        self.text.substring_char(start, end).to_owned()
    }
}

/// The error of kind `kind` at `pos`.
pub fn error_at(pos: usize, kind: ParseErrorKind) -> (e: ParseError)
    ensures
        e == fail(pos as int, kind),
{
    ParseError { position: pos, kind }
}

} // verus!
