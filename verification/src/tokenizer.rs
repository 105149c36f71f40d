//! A word-level tokenizer: the text is cut at white space and each word is
//! classified by its shape.

use crate::text::{chars_of, is_whitespace, str_equal, whitespace};
use vstd::prelude::*;
use vstd::string::StringExecFns;

verus! {

/// The kinds of token.
#[derive(Debug, Clone, Copy, PartialEq, Eq, Structural)]
pub enum TokenType {
    Keyword,
    Identifier,
    Literal,
    Unknown,
    Operator,
    Parenthesis,
    Comma,
    Path,
    Dot,
}

/// The extent of a token, in bytes from the start of its word.
#[derive(Debug, Clone, Copy, PartialEq, Eq, Structural)]
pub struct Location {
    pub start: usize,
    pub end: usize,
}

/// A classified word.
#[derive(Debug)]
pub struct Token {
    pub token_type: TokenType,
    pub literal: String,
    pub location: Location,
}

/// The view of a [`Token`].
pub struct TokenView {
    pub token_type: TokenType,
    pub literal: Seq<char>,
    pub location: Location,
}

impl View for Token {
    type V = TokenView;

    open spec fn view(&self) -> TokenView {
        TokenView { token_type: self.token_type, literal: self.literal@, location: self.location }
    }
}

impl Clone for Token {
    fn clone(&self) -> (r: Self)
        ensures
            r == *self,
    {
        Token {
            token_type: self.token_type,
            literal: self.literal.clone(),
            location: self.location,
        }
    }
}

/// The views of a sequence of tokens.
pub open spec fn tokens_of(tokens: Seq<Token>) -> Seq<TokenView> {
    tokens.map_values(|t: Token| t@)
}

/// The first position at or after `pos` that holds no white space.
pub open spec fn word_start(s: Seq<char>, pos: int) -> int
    decreases s.len() - pos,
{
    if 0 <= pos < s.len() && whitespace(s[pos]) {
        word_start(s, pos + 1)
    } else {
        pos
    }
}

/// The first position at or after `pos` that holds white space.
pub open spec fn word_stop(s: Seq<char>, pos: int) -> int
    decreases s.len() - pos,
{
    if 0 <= pos < s.len() && !whitespace(s[pos]) {
        word_stop(s, pos + 1)
    } else {
        pos
    }
}

/// The words of a text from `pos` on, added to `acc`. A word ends behind
/// where it starts; the test on `stop` lets the definition show that it is
/// well founded.
pub open spec fn words_from(s: Seq<char>, pos: int, acc: Seq<Seq<char>>) -> Seq<Seq<char>>
    decreases s.len() - pos,
{
    let start = word_start(s, pos);
    if !(0 <= start < s.len()) {
        acc
    } else {
        let stop = word_stop(s, start);
        if pos <= start < stop <= s.len() {
            words_from(s, stop, acc.push(s.subrange(start, stop)))
        } else {
            acc
        }
    }
}

/// The words of a text: its longest pieces without white space, in order.
pub open spec fn words_in(text: Seq<char>) -> Seq<Seq<char>> {
    words_from(text, 0, Seq::empty())
}

/// Whether `char::is_alphabetic` holds of `c`.
pub uninterp spec fn alphabetic(c: char) -> bool;

/// Whether `char::is_numeric` holds of `c`.
pub uninterp spec fn numeric(c: char) -> bool;

/// The upper-case form of a text, as `str::to_uppercase` gives it.
pub uninterp spec fn upper_case(text: Seq<char>) -> Seq<char>;

/// The texts of a sequence of string slices.
pub open spec fn slices_of(words: Seq<&str>) -> Seq<Seq<char>> {
    words.map_values(|w: &str| w@)
}

/// The words of a text; none of them is empty.
pub fn split_words<'a>(text: &'a str) -> (r: Vec<&'a str>)
    ensures
        slices_of(r@) == words_in(text@),
        forall|i: int| 0 <= i < r@.len() ==> (#[trigger] r@[i])@.len() > 0,
{
    let chars = chars_of(text);
    let n = chars.len();
    let mut words: Vec<&'a str> = Vec::new();
    let mut pos: usize = 0;
    assert(slices_of(words@) =~= Seq::<Seq<char>>::empty());
    loop
        invariant
            pos <= n,
            n == chars@.len(),
            chars@ == text@,
            words_from(text@, pos as int, slices_of(words@)) == words_in(text@),
            forall|i: int| 0 <= i < words@.len() ==> (#[trigger] words@[i])@.len() > 0,
        decreases n - pos,
    {
        let mut start: usize = pos;
        while start < n && is_whitespace(chars[start])
            invariant
                pos <= start <= n,
                n == chars@.len(),
                word_start(chars@, start as int) == word_start(chars@, pos as int),
            decreases n - start,
        {
            start = start + 1;
        }
        if start >= n {
            return words;
        }
        let mut stop: usize = start + 1;
        while stop < n && !is_whitespace(chars[stop])
            invariant
                start < stop <= n,
                n == chars@.len(),
                word_stop(chars@, stop as int) == word_stop(chars@, start as int),
            decreases n - stop,
        {
            stop = stop + 1;
        }
        let word = text.substring_char(start, stop);
        proof {
            assert(slices_of(words@.push(word)) =~= slices_of(words@).push(word@));
        }
        words.push(word);
        pos = stop;
    }
}

/// `char::is_alphabetic`.
#[verifier::external_body]
fn is_alphabetic(c: char) -> (r: bool)
    ensures
        r == alphabetic(c),
{
    c.is_alphabetic()
}

/// `char::is_numeric`.
#[verifier::external_body]
pub(crate) fn is_numeric(c: char) -> (r: bool)
    ensures
        r == numeric(c),
{
    c.is_numeric()
}

/// `str::to_uppercase`.
#[verifier::external_body]
fn to_upper(text: &str) -> (r: String)
    ensures
        r@ == upper_case(text@),
{
    text.to_uppercase()
}

/// Whether a word is a keyword: `SELECT`, `FROM`, `WHERE`, `MOVE`,
/// `DELETE`, `TO` or `CD` once it is brought to upper case.
pub open spec fn keyword_word(word: Seq<char>) -> bool {
    let upper = upper_case(word);
    upper == "SELECT"@ || upper == "FROM"@ || upper == "WHERE"@ || upper == "MOVE"@ || upper
        == "DELETE"@ || upper == "TO"@ || upper == "CD"@
}

pub open spec fn all_alphabetic(word: Seq<char>) -> bool {
    forall|i: int| 0 <= i < word.len() ==> alphabetic(#[trigger] word[i])
}

pub open spec fn all_numeric(word: Seq<char>) -> bool {
    forall|i: int| 0 <= i < word.len() ==> numeric(#[trigger] word[i])
}

/// Whether a word opens a comment.
pub open spec fn opens_comment(word: Seq<char>) -> bool {
    word.len() >= 2 && word[0] == '-' && word[1] == '-'
}

/// The kind of token a word is, if it is one. The tests are made in this
/// order: letters only; digits only or a leading quote; a leading `=`, `<`,
/// `>` or `!`; a `/`, `\` or `.` anywhere; a leading parenthesis or comma.
pub open spec fn classify(word: Seq<char>) -> Option<TokenType> {
    if all_alphabetic(word) {
        if keyword_word(word) {
            Some(TokenType::Keyword)
        } else {
            Some(TokenType::Identifier)
        }
    } else if all_numeric(word) || word[0] == '\'' || word[0] == '"' {
        Some(TokenType::Literal)
    } else if word[0] == '=' || word[0] == '<' || word[0] == '>' || word[0] == '!' {
        Some(TokenType::Operator)
    } else if word.contains('/') || word.contains('\\') || word.contains('.') {
        Some(TokenType::Path)
    } else if word[0] == '(' || word[0] == ')' {
        Some(TokenType::Parenthesis)
    } else if word[0] == ',' {
        Some(TokenType::Comma)
    } else {
        None
    }
}

/// The token for a word of the kind `token_type`.
pub open spec fn token_for(token_type: TokenType, word: Seq<char>) -> TokenView {
    TokenView {
        token_type,
        literal: word,
        location: Location { start: 0, end: vstd::utf8::encode_utf8(word).len() as usize },
    }
}

/// Where a comment ends: at the first word at or after `i` that holds a
/// line feed, or at the end of the words.
pub open spec fn comment_end(words: Seq<Seq<char>>, i: int) -> int
    decreases words.len() - i,
{
    if 0 <= i < words.len() && !words[i].contains('\n') {
        comment_end(words, i + 1)
    } else {
        i
    }
}

/// The tokens of the words from `i` on, added to `acc`. A word that opens a
/// comment is left out with all that follows it up to the end of the
/// comment; a word of no kind is left out alone. A comment ends behind the
/// word that opens it, so the test on `next` never fails.
pub open spec fn tokens_from(words: Seq<Seq<char>>, i: int, acc: Seq<TokenView>) -> Seq<TokenView>
    decreases words.len() - i,
{
    if !(0 <= i < words.len()) {
        acc
    } else if opens_comment(words[i]) {
        let next = comment_end(words, i + 1);
        if i < next <= words.len() {
            tokens_from(words, next, acc)
        } else {
            acc
        }
    } else {
        match classify(words[i]) {
            Some(token_type) => tokens_from(words, i + 1, acc.push(token_for(token_type, words[i]))),
            None => tokens_from(words, i + 1, acc),
        }
    }
}

/// Whether every character of `word` is alphabetic.
fn letters_only(word: &Vec<char>) -> (r: bool)
    ensures
        r == all_alphabetic(word@),
{
    let mut i: usize = 0;
    while i < word.len()
        invariant
            i <= word@.len(),
            forall|j: int| 0 <= j < i ==> alphabetic(#[trigger] word@[j]),
        decreases word@.len() - i,
    {
        if !is_alphabetic(word[i]) {
            return false;
        }
        i = i + 1;
    }
    true
}

/// Whether every character of `word` is numeric.
fn digits_only(word: &Vec<char>) -> (r: bool)
    ensures
        r == all_numeric(word@),
{
    let mut i: usize = 0;
    while i < word.len()
        invariant
            i <= word@.len(),
            forall|j: int| 0 <= j < i ==> numeric(#[trigger] word@[j]),
        decreases word@.len() - i,
    {
        if !is_numeric(word[i]) {
            return false;
        }
        i = i + 1;
    }
    true
}

/// Whether `word` holds the character `c`.
fn holds(word: &Vec<char>, c: char) -> (r: bool)
    ensures
        r == word@.contains(c),
{
    let mut i: usize = 0;
    while i < word.len()
        invariant
            i <= word@.len(),
            forall|j: int| 0 <= j < i ==> word@[j] != c,
        decreases word@.len() - i,
    {
        if word[i] == c {
            return true;
        }
        i = i + 1;
    }
    false
}

/// Whether a word is a keyword.
pub fn is_keyword(identifier: &str) -> (r: bool)
    ensures
        r == keyword_word(identifier@),
{
    let upper = to_upper(identifier);
    let u = upper.as_str();
    str_equal(u, "SELECT") || str_equal(u, "FROM") || str_equal(u, "WHERE") || str_equal(u, "MOVE")
        || str_equal(u, "DELETE") || str_equal(u, "TO") || str_equal(u, "CD")
}

/// The kind of token a word is, if it is one.
pub fn classify_word(word: &str) -> (r: Option<TokenType>)
    requires
        word@.len() > 0,
    ensures
        r == classify(word@),
{
    let chars = chars_of(word);
    let first = chars[0];
    if letters_only(&chars) {
        if is_keyword(word) {
            Some(TokenType::Keyword)
        } else {
            Some(TokenType::Identifier)
        }
    } else if digits_only(&chars) || first == '\'' || first == '"' {
        Some(TokenType::Literal)
    } else if first == '=' || first == '<' || first == '>' || first == '!' {
        Some(TokenType::Operator)
    } else if holds(&chars, '/') || holds(&chars, '\\') || holds(&chars, '.') {
        Some(TokenType::Path)
    } else if first == '(' || first == ')' {
        Some(TokenType::Parenthesis)
    } else if first == ',' {
        Some(TokenType::Comma)
    } else {
        None
    }
}

/// A text cut into words, and the word to be read next.
pub struct Tokenizer<'a> {
    input: &'a str,
    words: Vec<&'a str>,
    current_word_index: usize,
}

impl<'a> Tokenizer<'a> {
    #[verifier::type_invariant]
    spec fn words_are_cut(&self) -> bool {
        &&& slices_of(self.words@) == words_in(self.input@)
        &&& forall|i: int| 0 <= i < self.words@.len() ==> (#[trigger] self.words@[i])@.len() > 0
    }

    /// The text.
    pub closed spec fn text(&self) -> Seq<char> {
        self.input@
    }

    /// The number of words already read.
    pub closed spec fn position(&self) -> int {
        self.current_word_index as int
    }

    /// A tokenizer at the first word of `input`.
    pub fn new(input: &'a str) -> (r: Self)
        ensures
            r.text() == input@,
            r.position() == 0,
    {
        let words = split_words(input);
        Tokenizer { input, words, current_word_index: 0 }
    }

    /// The tokens of the words not yet read. Afterwards every word is read.
    pub fn tokenize(&mut self) -> (tokens: Vec<Token>)
        ensures
            tokens_of(tokens@) == tokens_from(
                words_in(old(self).text()),
                old(self).position(),
                Seq::empty(),
            ),
            final(self).text() == old(self).text(),
            final(self).position() >= old(self).position(),
            final(self).position() >= words_in(old(self).text()).len(),
    {
        proof {
            use_type_invariant(&*self);
        }
        let ghost words = slices_of(self.words@);
        let n = self.words.len();
        let mut tokens: Vec<Token> = Vec::new();
        let mut i: usize = self.current_word_index;
        assert(tokens_of(tokens@) =~= Seq::<TokenView>::empty());
        while i < n
            invariant
                n == self.words@.len(),
                words == slices_of(self.words@),
                words == words_in(self.input@),
                self.input == old(self).input,
                self.words == old(self).words,
                forall|k: int| 0 <= k < self.words@.len() ==> (#[trigger] self.words@[k])@.len() > 0,
                i >= old(self).current_word_index,
                tokens_from(words, i as int, tokens_of(tokens@)) == tokens_from(
                    words,
                    old(self).current_word_index as int,
                    Seq::empty(),
                ),
            decreases n - i,
        {
            let word: &str = self.words[i];
            assert(words[i as int] == word@);
            let chars = chars_of(word);
            if chars.len() >= 2 && chars[0] == '-' && chars[1] == '-' {
                let mut next: usize = i + 1;
                while next < n && !holds_line_feed(self.words[next])
                    invariant
                        i < next <= n,
                        n == self.words@.len(),
                        words == slices_of(self.words@),
                        comment_end(words, next as int) == comment_end(words, i + 1),
                    decreases n - next,
                {
                    assert(words[next as int] == self.words@[next as int]@);
                    next = next + 1;
                }
                proof {
                    if next < n {
                        assert(words[next as int] == self.words@[next as int]@);
                    }
                }
                i = next;
            } else {
                match classify_word(word) {
                    Some(token_type) => {
                        let token = Token {
                            token_type,
                            literal: String::from_str(word),
                            location: Location { start: 0, end: word.len() },
                        };
                        proof {
                            assert(token@ == token_for(token_type, word@));
                            assert(tokens_of(tokens@.push(token)) =~= tokens_of(tokens@).push(
                                token@,
                            ));
                        }
                        tokens.push(token);
                    },
                    None => {},
                }
                i = i + 1;
            }
        }
        self.current_word_index = i;
        tokens
    }
}

/// Whether a word holds a line feed.
fn holds_line_feed(word: &str) -> (r: bool)
    ensures
        r == word@.contains('\n'),
{
    let chars = chars_of(word);
    holds(&chars, '\n')
}

} // verus!
