//! Literals: quoted strings, numbers with an optional unit, `true` and
//! `false`.

use crate::decimal::{all_digits, Decimal, DecimalView};
use crate::parser::source::{error_at, fail, keyword_at, symbol_at, word_end, Source};
use crate::text::{is_digit, lemma_scan, scan, skip_spaces, CharClass};
use crate::types::{ParseError, ParseErrorKind, Value, ValueView};
use vstd::prelude::*;

verus! {

/// The rule for a quoted string whose opening quote stands at `pos`: the
/// text up to the next double quote.
pub open spec fn quoted(s: Seq<char>, pos: int) -> Result<(Seq<char>, int), ParseError> {
    let close = scan(s, pos + 1, CharClass::Quoted);
    if 0 <= close < s.len() {
        Ok((s.subrange(pos + 1, close), close + 1))
    } else {
        Err(fail(pos, ParseErrorKind::UnterminatedString))
    }
}

/// The values of a run of digit characters.
pub open spec fn digits_of(chars: Seq<char>) -> Seq<u8> {
    Seq::new(chars.len(), |i: int| (chars[i] as int - '0' as int) as u8)
}

/// A number as it stands in the text: digits, an optional fraction, an
/// optional unit of letters, and the position after it.
pub struct NumberView {
    pub whole: Seq<u8>,
    pub frac: Seq<u8>,
    pub unit: Seq<char>,
    pub end: int,
}

/// The rule `digit+ ("." digit+)? letter*` for a number whose first digit
/// stands at `pos`.
pub open spec fn number(s: Seq<char>, pos: int) -> NumberView {
    let whole_end = scan(s, pos, CharClass::Digit);
    let pointed = symbol_at(s, whole_end, '.') && whole_end + 1 < s.len() && is_digit(
        s[whole_end + 1],
    );
    let frac_start = if pointed {
        whole_end + 1
    } else {
        whole_end
    };
    let frac_end = scan(s, frac_start, CharClass::Digit);
    let unit_end = scan(s, frac_end, CharClass::Letter);
    NumberView {
        whole: digits_of(s.subrange(pos, whole_end)),
        frac: digits_of(s.subrange(frac_start, frac_end)),
        unit: s.subrange(frac_end, unit_end),
        end: unit_end,
    }
}

/// The rule `quoted_string | number[unit] | "true" | "false"` from `pos`.
pub open spec fn value(s: Seq<char>, pos: int) -> Result<(ValueView, int), ParseError> {
    let start = skip_spaces(s, pos);
    if symbol_at(s, start, '"') {
        match quoted(s, start) {
            Ok((text, end)) => Ok((ValueView::String(text), end)),
            Err(e) => Err(e),
        }
    } else if 0 <= start < s.len() && is_digit(s[start]) {
        let n = number(s, start);
        let digits = DecimalView { whole: n.whole, frac: n.frac };
        if n.unit.len() > 0 {
            Ok((ValueView::SizedNumber(digits, n.unit), n.end))
        } else {
            Ok((ValueView::Number(digits), n.end))
        }
    } else if keyword_at(s, start, "true"@) {
        Ok((ValueView::Bool(true), word_end(s, start)))
    } else if keyword_at(s, start, "false"@) {
        Ok((ValueView::Bool(false), word_end(s, start)))
    } else {
        Err(fail(start, ParseErrorKind::ExpectedValue))
    }
}

/// A number read from the text.
pub struct NumberToken {
    pub digits: Decimal,
    pub unit: String,
    pub end: usize,
}

impl View for NumberToken {
    type V = NumberView;

    open spec fn view(&self) -> NumberView {
        NumberView {
            whole: self.digits.whole_digits(),
            frac: self.digits.frac_digits(),
            unit: self.unit@,
            end: self.end as int,
        }
    }
}

/// Reads the quoted string whose opening quote stands at `pos`.
pub fn parse_quoted(src: &Source, pos: usize) -> (r: Result<(String, usize), ParseError>)
    requires
        symbol_at(src@, pos as int, '"'),
    ensures
        match r {
            Ok((text, end)) => quoted(src@, pos as int) == Ok::<(Seq<char>, int), ParseError>(
                (text@, end as int),
            ) && pos < end <= src@.len(),
            Err(e) => quoted(src@, pos as int) == Err::<(Seq<char>, int), ParseError>(e),
        },
{
    let n = src.len();
    let close = src.scan(pos + 1, CharClass::Quoted);
    if close < n {
        Ok((src.slice(pos + 1, close), close + 1))
    } else {
        Err(error_at(pos, ParseErrorKind::UnterminatedString))
    }
}

/// The values of the digit characters from `start` to `end`.
fn read_digits(chars: &Vec<char>, start: usize, end: usize) -> (out: Vec<u8>)
    requires
        start <= end <= chars@.len(),
        forall|i: int| start <= i < end ==> is_digit(#[trigger] chars@[i]),
    ensures
        out@ == digits_of(chars@.subrange(start as int, end as int)),
        all_digits(out@),
{
    let mut out: Vec<u8> = Vec::new();
    let mut i: usize = start;
    let ghost run = chars@.subrange(start as int, end as int);
    while i < end
        invariant
            start <= i <= end <= chars@.len(),
            run == chars@.subrange(start as int, end as int),
            forall|j: int| start <= j < end ==> is_digit(#[trigger] chars@[j]),
            out@.len() == i - start,
            forall|j: int| 0 <= j < out@.len() ==> out@[j] == digits_of(run)[j],
            all_digits(out@),
        decreases end - i,
    {
        let c = chars[i];
        assert(run[i - start] == c);
        out.push(crate::text::digit_of(c));
        i = i + 1;
    }
    assert(out@ =~= digits_of(run));
    out
}

/// The number that a text writes as `digit+ ("." digit+)?`, if it is so
/// written.
pub open spec fn decimal_of(s: Seq<char>) -> Option<DecimalView> {
    let whole_end = scan(s, 0, CharClass::Digit);
    if whole_end == 0 {
        None
    } else if whole_end == s.len() {
        Some(DecimalView { whole: digits_of(s), frac: Seq::empty() })
    } else if s[whole_end] == '.' && whole_end + 1 < s.len() && scan(
        s,
        whole_end + 1,
        CharClass::Digit,
    ) == s.len() {
        Some(
            DecimalView {
                whole: digits_of(s.subrange(0, whole_end)),
                frac: digits_of(s.subrange(whole_end + 1, s.len() as int)),
            },
        )
    } else {
        None
    }
}

/// Reads a number written as `digit+ ("." digit+)?`; `None` for any other
/// text.
pub fn parse_decimal(text: &str) -> (r: Option<Decimal>)
    ensures
        match r {
            Some(d) => decimal_of(text@) == Some(d@),
            None => decimal_of(text@) is None,
        },
{
    let chars = crate::text::chars_of(text);
    let n = chars.len();
    let whole_end = crate::text::scan_class(&chars, 0, CharClass::Digit);
    proof {
        lemma_scan(chars@, 0, CharClass::Digit);
    }
    if whole_end == 0 {
        return None;
    }
    if whole_end == n {
        let whole = read_digits(&chars, 0, n);
        assert(chars@.subrange(0, n as int) =~= chars@);
        return Some(Decimal::from_digit_runs(whole, Vec::new()));
    }
    if chars[whole_end] != '.' || whole_end + 1 >= n {
        return None;
    }
    let frac_end = crate::text::scan_class(&chars, whole_end + 1, CharClass::Digit);
    proof {
        lemma_scan(chars@, whole_end + 1, CharClass::Digit);
    }
    if frac_end != n {
        return None;
    }
    let whole = read_digits(&chars, 0, whole_end);
    let frac = read_digits(&chars, whole_end + 1, n);
    Some(Decimal::from_digit_runs(whole, frac))
}

/// Reads the number whose first digit stands at `pos`.
pub fn parse_number(src: &Source, pos: usize) -> (r: NumberToken)
    requires
        pos < src@.len(),
        is_digit(src@[pos as int]),
    ensures
        r@ == number(src@, pos as int),
        pos < r.end <= src@.len(),
{
    let n = src.len();
    let whole_end = src.scan(pos, CharClass::Digit);
    let pointed = src.symbol(whole_end, '.') && src.digit_starts(whole_end + 1);
    let frac_start: usize = if pointed {
        whole_end + 1
    } else {
        whole_end
    };
    let frac_end = src.scan(frac_start, CharClass::Digit);
    let unit_end = src.scan(frac_end, CharClass::Letter);
    proof {
        lemma_scan(src@, pos as int, CharClass::Digit);
        lemma_scan(src@, frac_start as int, CharClass::Digit);
    }
    let whole = read_digits(src.chars(), pos, whole_end);
    let frac = read_digits(src.chars(), frac_start, frac_end);
    NumberToken {
        digits: Decimal::from_digit_runs(whole, frac),
        unit: src.slice(frac_end, unit_end),
        end: unit_end,
    }
}

/// Reads a literal at `pos`.
pub fn parse_value(src: &Source, pos: usize) -> (r: Result<(Value, usize), ParseError>)
    requires
        pos <= src@.len(),
    ensures
        match r {
            Ok((v, end)) => value(src@, pos as int) == Ok::<(ValueView, int), ParseError>(
                (v@, end as int),
            ) && pos < end <= src@.len(),
            Err(e) => value(src@, pos as int) == Err::<(ValueView, int), ParseError>(e),
        },
{
    let start = src.skip_spaces(pos);
    if src.symbol(start, '"') {
        return match parse_quoted(src, start) {
            Ok((text, end)) => Ok((Value::String(text), end)),
            Err(e) => Err(e),
        };
    }
    if src.digit_starts(start) {
        let token = parse_number(src, start);
        let end = token.end;
        if token.unit.as_str().unicode_len() > 0 {
            return Ok((Value::SizedNumber(token.digits, token.unit), end));
        }
        return Ok((Value::Number(token.digits), end));
    }
    if let Some(end) = src.keyword(start, "true") {
        proof {
            reveal_strlit("true");
            lemma_keyword_is_not_empty(src@, start as int, "true"@);
        }
        return Ok((Value::Bool(true), end));
    }
    if let Some(end) = src.keyword(start, "false") {
        proof {
            reveal_strlit("false");
            lemma_keyword_is_not_empty(src@, start as int, "false"@);
        }
        return Ok((Value::Bool(false), end));
    }
    Err(error_at(start, ParseErrorKind::ExpectedValue))
}

/// A literal that is read ends behind where it was looked for, within the
/// text.
pub proof fn lemma_value_advances(s: Seq<char>, pos: int)
    requires
        0 <= pos <= s.len(),
    ensures
        value(s, pos) matches Ok((_, end)) ==> pos < end <= s.len(),
{
    let start = skip_spaces(s, pos);
    lemma_scan(s, pos, CharClass::Space);
    if symbol_at(s, start, '"') {
        lemma_scan(s, start + 1, CharClass::Quoted);
    } else if 0 <= start < s.len() && is_digit(s[start]) {
        let whole_end = scan(s, start, CharClass::Digit);
        lemma_scan(s, start, CharClass::Digit);
        assert(scan(s, start, CharClass::Digit) == scan(s, start + 1, CharClass::Digit));
        lemma_scan(s, start + 1, CharClass::Digit);
        let pointed = symbol_at(s, whole_end, '.') && whole_end + 1 < s.len() && is_digit(
            s[whole_end + 1],
        );
        let frac_start = if pointed {
            whole_end + 1
        } else {
            whole_end
        };
        lemma_scan(s, frac_start, CharClass::Digit);
        lemma_scan(s, scan(s, frac_start, CharClass::Digit), CharClass::Letter);
    } else if keyword_at(s, start, "true"@) {
        reveal_strlit("true");
        lemma_keyword_is_not_empty(s, start, "true"@);
        lemma_scan(s, start, CharClass::Word);
    } else if keyword_at(s, start, "false"@) {
        reveal_strlit("false");
        lemma_keyword_is_not_empty(s, start, "false"@);
        lemma_scan(s, start, CharClass::Word);
    }
}

/// A keyword found at `pos` ends as many characters later as it is long.
pub proof fn lemma_keyword_is_not_empty(s: Seq<char>, pos: int, word: Seq<char>)
    requires
        keyword_at(s, pos, word),
    ensures
        word_end(s, pos) == pos + word.len(),
{
    lemma_scan(s, pos, CharClass::Word);
}

} // verus!
