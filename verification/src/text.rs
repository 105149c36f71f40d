//! Character classes, scanning and string primitives shared by the parser
//! and the evaluator.

use vstd::prelude::*;
use vstd::string::StringExecFns;

verus! {

broadcast use vstd::string::group_string_axioms;

/// The classes of characters the query language distinguishes.
#[derive(Clone, Copy, Debug, PartialEq, Eq, Structural)]
pub enum CharClass {
    /// Blank, tab, line feed or carriage return.
    Space,
    /// `0` to `9`.
    Digit,
    /// `a` to `z` and `A` to `Z`.
    Letter,
    /// A letter, a digit or `_`.
    Word,
    /// What an unquoted path may hold: a letter, a digit or one of `/ \ . _ - ~ :`.
    Path,
    /// Anything but a double quote.
    Quoted,
}

pub open spec fn is_space(c: char) -> bool {
    c == ' ' || c == '\t' || c == '\n' || c == '\r'
}

pub open spec fn is_digit(c: char) -> bool {
    '0' <= c <= '9'
}

pub open spec fn is_upper(c: char) -> bool {
    'A' <= c <= 'Z'
}

pub open spec fn is_lower(c: char) -> bool {
    'a' <= c <= 'z'
}

pub open spec fn is_letter(c: char) -> bool {
    is_upper(c) || is_lower(c)
}

pub open spec fn is_word_char(c: char) -> bool {
    is_letter(c) || is_digit(c) || c == '_'
}

pub open spec fn is_word_start(c: char) -> bool {
    is_letter(c) || c == '_'
}

pub open spec fn is_path_char(c: char) -> bool {
    is_letter(c) || is_digit(c) || c == '/' || c == '\\' || c == '.' || c == '_' || c == '-' || c
        == '~' || c == ':'
}

/// Whether `c` belongs to `class`.
pub open spec fn class_has(class: CharClass, c: char) -> bool {
    match class {
        CharClass::Space => is_space(c),
        CharClass::Digit => is_digit(c),
        CharClass::Letter => is_letter(c),
        CharClass::Word => is_word_char(c),
        CharClass::Path => is_path_char(c),
        CharClass::Quoted => c != '"',
    }
}

/// The code of `c` with an upper-case ASCII letter replaced by its
/// lower-case form.
pub open spec fn folded(c: char) -> int {
    if is_upper(c) {
        c as int + 32
    } else {
        c as int
    }
}

/// `a` and `b` are the same text up to the case of ASCII letters.
pub open spec fn same_ignoring_case(a: Seq<char>, b: Seq<char>) -> bool {
    &&& a.len() == b.len()
    &&& forall|i: int| 0 <= i < a.len() ==> folded(a[i]) == folded(b[i])
}

/// The first position at or after `pos` whose character is outside `class`,
/// or the end of `s`.
pub open spec fn scan(s: Seq<char>, pos: int, class: CharClass) -> int
    decreases s.len() - pos,
{
    if 0 <= pos < s.len() && class_has(class, s[pos]) {
        scan(s, pos + 1, class)
    } else {
        pos
    }
}

/// The first position at or after `pos` that holds no white space.
pub open spec fn skip_spaces(s: Seq<char>, pos: int) -> int {
    scan(s, pos, CharClass::Space)
}

/// `scan` moves forward, stays within `s`, passes only characters of the
/// class and stops at the first one outside it.
pub proof fn lemma_scan(s: Seq<char>, pos: int, class: CharClass)
    requires
        0 <= pos <= s.len(),
    ensures
        pos <= scan(s, pos, class) <= s.len(),
        forall|i: int| pos <= i < scan(s, pos, class) ==> class_has(class, #[trigger] s[i]),
        scan(s, pos, class) < s.len() ==> !class_has(class, s[scan(s, pos, class)]),
    decreases s.len() - pos,
{
    if pos < s.len() && class_has(class, s[pos]) {
        lemma_scan(s, pos + 1, class);
    }
}

/// `scan` never moves backwards, wherever it starts.
pub proof fn lemma_scan_forward(s: Seq<char>, pos: int, class: CharClass)
    ensures
        scan(s, pos, class) >= pos,
    decreases s.len() - pos,
{
    if 0 <= pos < s.len() && class_has(class, s[pos]) {
        lemma_scan_forward(s, pos + 1, class);
    }
}

pub fn char_is_space(c: char) -> (r: bool)
    ensures
        r == is_space(c),
{
    c == ' ' || c == '\t' || c == '\n' || c == '\r'
}

pub fn char_is_digit(c: char) -> (r: bool)
    ensures
        r == is_digit(c),
{
    '0' <= c && c <= '9'
}

pub fn char_is_letter(c: char) -> (r: bool)
    ensures
        r == is_letter(c),
{
    ('A' <= c && c <= 'Z') || ('a' <= c && c <= 'z')
}

pub fn char_is_word_start(c: char) -> (r: bool)
    ensures
        r == is_word_start(c),
{
    char_is_letter(c) || c == '_'
}

/// Whether `c` belongs to `class`.
pub fn char_in_class(class: CharClass, c: char) -> (r: bool)
    ensures
        r == class_has(class, c),
{
    match class {
        CharClass::Space => char_is_space(c),
        CharClass::Digit => char_is_digit(c),
        CharClass::Letter => char_is_letter(c),
        CharClass::Word => char_is_letter(c) || char_is_digit(c) || c == '_',
        CharClass::Path => char_is_letter(c) || char_is_digit(c) || c == '/' || c == '\\' || c
            == '.' || c == '_' || c == '-' || c == '~' || c == ':',
        CharClass::Quoted => c != '"',
    }
}

/// The code of `c`, folded to lower case.
pub fn fold_char(c: char) -> (r: u32)
    ensures
        r == folded(c),
{
    if 'A' <= c && c <= 'Z' {
        c as u32 + 32
    } else {
        c as u32
    }
}

/// The value of the decimal digit `c`.
pub fn digit_of(c: char) -> (r: u8)
    requires
        is_digit(c),
    ensures
        r == c as int - '0' as int,
        r < 10,
{
    (c as u32 - '0' as u32) as u8
}

/// The characters of `text`, in order.
pub fn chars_of(text: &str) -> (out: Vec<char>)
    ensures
        out@ == text@,
{
    let mut out: Vec<char> = Vec::new();
    let source = text.chars();
    for c in it: source
        invariant
            it.seq() == text@,
            out@ == it.seq().take(it.index()),
    {
        out.push(c);
    }
    out
}

/// Runs over the characters of `class` that start at `pos`.
pub fn scan_class(s: &Vec<char>, pos: usize, class: CharClass) -> (end: usize)
    requires
        pos <= s@.len(),
    ensures
        end == scan(s@, pos as int, class),
        pos <= end <= s@.len() <= usize::MAX,
        pos < s@.len() && class_has(class, s@[pos as int]) ==> pos < end,
{
    let mut end: usize = pos;
    while end < s.len() && char_in_class(class, s[end])
        invariant
            pos <= end <= s@.len(),
            scan(s@, end as int, class) == scan(s@, pos as int, class),
        decreases s@.len() - end,
    {
        end = end + 1;
    }
    end
}

/// Whether the characters of `s` from `start` to `end` spell `word`, up to
/// the case of ASCII letters.
pub fn range_spells(s: &Vec<char>, start: usize, end: usize, word: &str) -> (r: bool)
    requires
        start <= end <= s@.len(),
    ensures
        r == same_ignoring_case(s@.subrange(start as int, end as int), word@),
{
    let n: usize = word.unicode_len();
    if end - start != n {
        return false;
    }
    let ghost piece = s@.subrange(start as int, end as int);
    let mut i: usize = 0;
    while i < n
        invariant
            i <= n,
            n == word@.len(),
            start + n == end,
            end <= s@.len(),
            piece == s@.subrange(start as int, end as int),
            forall|j: int| 0 <= j < i ==> folded(piece[j]) == folded(word@[j]),
        decreases n - i,
    {
        if fold_char(s[start + i]) != fold_char(word.get_char(i)) {
            assert(folded(piece[i as int]) != folded(word@[i as int]));
            return false;
        }
        i = i + 1;
    }
    true
}

/// Whether `s` holds exactly the characters of `word`.
pub fn range_equals(s: &Vec<char>, start: usize, end: usize, word: &str) -> (r: bool)
    requires
        start <= end <= s@.len(),
    ensures
        r == (s@.subrange(start as int, end as int) == word@),
{
    let n: usize = word.unicode_len();
    if end - start != n {
        return false;
    }
    let ghost piece = s@.subrange(start as int, end as int);
    let mut i: usize = 0;
    while i < n
        invariant
            i <= n,
            n == word@.len(),
            start + n == end,
            end <= s@.len(),
            piece == s@.subrange(start as int, end as int),
            forall|j: int| 0 <= j < i ==> piece[j] == word@[j],
        decreases n - i,
    {
        if s[start + i] != word.get_char(i) {
            assert(piece[i as int] != word@[i as int]);
            return false;
        }
        i = i + 1;
    }
    assert(piece =~= word@);
    true
}

/// The lower-case form of a text, as `str::to_lowercase` gives it.
pub uninterp spec fn lower_case(text: Seq<char>) -> Seq<char>;

/// `str::to_lowercase`.
#[verifier::external_body]
pub(crate) fn to_lower(text: &str) -> (r: String)
    ensures
        r@ == lower_case(text@),
{
    text.to_lowercase()
}

/// Whether `char::is_whitespace` holds of `c`.
pub uninterp spec fn whitespace(c: char) -> bool;

/// `char::is_whitespace`.
#[verifier::external_body]
pub(crate) fn is_whitespace(c: char) -> (r: bool)
    ensures
        r == whitespace(c),
{
    c.is_whitespace()
}

/// The first position at or after `pos` that holds no white space.
pub open spec fn text_start(s: Seq<char>, pos: int) -> int
    decreases s.len() - pos,
{
    if 0 <= pos < s.len() && whitespace(s[pos]) {
        text_start(s, pos + 1)
    } else {
        pos
    }
}

/// Where the text ends once the white space at its end is left out.
pub open spec fn text_end(s: Seq<char>) -> int
    decreases s.len(),
{
    if s.len() > 0 && whitespace(s.last()) {
        text_end(s.drop_last())
    } else {
        s.len() as int
    }
}

/// A text without the white space at its start and at its end.
pub open spec fn stripped(s: Seq<char>) -> Seq<char> {
    let end = text_end(s);
    let start = text_start(s.take(end), 0);
    s.subrange(start, end)
}

/// A text without the white space at its start and at its end.
pub fn strip(text: &str) -> (r: &str)
    ensures
        r@ == stripped(text@),
{
    let chars = chars_of(text);
    let mut end: usize = chars.len();
    assert(chars@.take(end as int) =~= chars@);
    while end > 0 && is_whitespace(chars[end - 1])
        invariant
            end <= chars@.len(),
            text_end(chars@.take(end as int)) == text_end(chars@),
        decreases end,
    {
        proof {
            assert(chars@.take(end as int).drop_last() =~= chars@.take(end - 1));
        }
        end = end - 1;
    }
    let ghost head = chars@.take(end as int);
    proof {
        if end > 0 {
            assert(head.last() == chars@[end - 1]);
        }
        assert(text_end(chars@) == end);
    }
    let mut start: usize = 0;
    while start < end && is_whitespace(chars[start])
        invariant
            start <= end <= chars@.len(),
            head == chars@.take(end as int),
            text_start(head, start as int) == text_start(head, 0),
        decreases end - start,
    {
        start = start + 1;
    }
    assert(text_start(head, 0) == start);
    let piece = text.substring_char(start, end);
    assert(piece@ =~= stripped(text@));
    piece
}

/// The character that writes the digit `d`.
pub open spec fn digit_char(d: int) -> char {
    ('0' as int + d) as char
}

/// `n` written in decimal, without leading zeros.
pub open spec fn decimal_text(n: nat) -> Seq<char>
    decreases n,
{
    if n < 10 {
        seq![digit_char(n as int)]
    } else {
        decimal_text(n / 10).push(digit_char((n % 10) as int))
    }
}

/// The text of the digit `d`.
pub fn digit_str(d: u8) -> (r: &'static str)
    requires
        d < 10,
    ensures
        r@ == seq![digit_char(d as int)],
{
    proof {
        reveal_strlit("0");
        reveal_strlit("1");
        reveal_strlit("2");
        reveal_strlit("3");
        reveal_strlit("4");
        reveal_strlit("5");
        reveal_strlit("6");
        reveal_strlit("7");
        reveal_strlit("8");
        reveal_strlit("9");
    }
    let r = match d {
        0 => "0",
        1 => "1",
        2 => "2",
        3 => "3",
        4 => "4",
        5 => "5",
        6 => "6",
        7 => "7",
        8 => "8",
        _ => "9",
    };
    assert(r@ =~= seq![digit_char(d as int)]);
    r
}

/// Appends `n`, written in decimal, to `out`.
pub fn append_number(out: &mut String, n: u64)
    ensures
        final(out)@ == old(out)@ + decimal_text(n as nat),
    decreases n,
{
    if n >= 10 {
        append_number(out, n / 10);
    }
    let ghost before = out@;
    out.append(digit_str((n % 10) as u8));
    proof {
        if n >= 10 {
            assert(out@ =~= old(out)@ + decimal_text(n as nat));
        } else {
            assert(out@ =~= old(out)@ + decimal_text(n as nat));
        }
    }
}

/// `needle` occurs in `hay` as a contiguous run of characters.
pub open spec fn occurs_in(hay: Seq<char>, needle: Seq<char>) -> bool {
    exists|i: int|
        0 <= i && i + needle.len() <= hay.len() && #[trigger] hay.subrange(
            i,
            i + needle.len(),
        ) == needle
}

/// `a` comes strictly before `b` when both are compared character by
/// character, by code point; a proper prefix comes first.
pub open spec fn text_before(a: Seq<char>, b: Seq<char>) -> bool
    decreases a.len(),
{
    if b.len() == 0 {
        false
    } else if a.len() == 0 {
        true
    } else if a[0] != b[0] {
        (a[0] as int) < (b[0] as int)
    } else {
        text_before(a.drop_first(), b.drop_first())
    }
}

/// Whether two strings hold the same characters.
pub fn str_equal(a: &str, b: &str) -> (r: bool)
    ensures
        r == (a@ == b@),
{
    let x = a.as_bytes();
    let y = b.as_bytes();
    proof {
        // Equal encodings decode to equal texts.
        vstd::utf8::encode_utf8_decode_utf8(a@);
        vstd::utf8::encode_utf8_decode_utf8(b@);
    }
    if x.len() != y.len() {
        return false;
    }
    let mut i: usize = 0;
    while i < x.len()
        invariant
            i <= x@.len(),
            x@.len() == y@.len(),
            x@ == vstd::utf8::encode_utf8(a@),
            y@ == vstd::utf8::encode_utf8(b@),
            forall|j: int| 0 <= j < i ==> x@[j] == y@[j],
        decreases x@.len() - i,
    {
        if x[i] != y[i] {
            return false;
        }
        i = i + 1;
    }
    assert(x@ =~= y@);
    true
}

/// Whether `needle` stands in `hay` at `at`.
fn stands_at(hay: &Vec<char>, needle: &Vec<char>, at: usize) -> (r: bool)
    requires
        at + needle@.len() <= hay@.len(),
    ensures
        r == (hay@.subrange(at as int, at + needle@.len()) == needle@),
{
    let ghost piece = hay@.subrange(at as int, at + needle@.len());
    let n = hay.len();
    let mut i: usize = 0;
    while i < needle.len()
        invariant
            i <= needle@.len(),
            n == hay@.len(),
            at + needle@.len() <= hay@.len(),
            piece == hay@.subrange(at as int, at + needle@.len()),
            forall|j: int| 0 <= j < i ==> piece[j] == needle@[j],
        decreases needle@.len() - i,
    {
        if hay[at + i] != needle[i] {
            assert(piece[i as int] != needle@[i as int]);
            return false;
        }
        i = i + 1;
    }
    assert(piece =~= needle@);
    true
}

/// Whether `needle` occurs in `hay`.
pub fn str_contains(hay: &str, needle: &str) -> (r: bool)
    ensures
        r == occurs_in(hay@, needle@),
{
    let text = chars_of(hay);
    let word = chars_of(needle);
    if word.len() > text.len() {
        return false;
    }
    let last: usize = text.len() - word.len();
    let mut at: usize = 0;
    loop
        invariant
            at <= last,
            last + word@.len() == text@.len(),
            text@ == hay@,
            word@ == needle@,
            forall|i: int|
                0 <= i < at ==> #[trigger] text@.subrange(i, i + word@.len()) != word@,
        decreases last - at,
    {
        if stands_at(&text, &word, at) {
            return true;
        }
        if at == last {
            return false;
        }
        at = at + 1;
    }
}

/// Whether `a` comes strictly before `b`, character by character.
pub fn str_before(a: &str, b: &str) -> (r: bool)
    ensures
        r == text_before(a@, b@),
{
    let x = chars_of(a);
    let y = chars_of(b);
    let mut i: usize = 0;
    assert(x@.skip(0) =~= x@);
    assert(y@.skip(0) =~= y@);
    while i < x.len() && i < y.len()
        invariant
            i <= x@.len(),
            i <= y@.len(),
            x@ == a@,
            y@ == b@,
            text_before(x@.skip(i as int), y@.skip(i as int)) == text_before(a@, b@),
        decreases x@.len() - i,
    {
        let c = x[i];
        let d = y[i];
        proof {
            assert(x@.skip(i as int)[0] == c);
            assert(y@.skip(i as int)[0] == d);
            assert(x@.skip(i as int).drop_first() =~= x@.skip(i + 1));
            assert(y@.skip(i as int).drop_first() =~= y@.skip(i + 1));
        }
        if c != d {
            return c < d;
        }
        i = i + 1;
    }
    i < y.len()
}

} // verus!
