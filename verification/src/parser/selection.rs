//! The selection of a query: `*` or a list of field names.

use crate::parser::source::{error_at, fail, symbol_at, word_end, Source};
use crate::text::{is_word_start, lemma_scan_forward, skip_spaces, str_equal, CharClass};
use crate::types::{texts_of, ParseError, ParseErrorKind, SelectionType, SelectionView};
use vstd::prelude::*;

verus! {

/// The rule `field ("," field)*` from `pos`, its names added to `acc`.
pub open spec fn field_list(s: Seq<char>, pos: int, acc: Seq<Seq<char>>) -> Result<
    (Seq<Seq<char>>, int),
    ParseError,
>
    decreases s.len() - pos,
{
    let start = skip_spaces(s, pos);
    if !(0 <= start < s.len() && is_word_start(s[start])) {
        Err(fail(start, ParseErrorKind::ExpectedField))
    } else {
        let end = word_end(s, start);
        let names = acc.push(s.subrange(start, end));
        let comma = skip_spaces(s, end);
        if symbol_at(s, comma, ',') {
            proof {
                lemma_scan_forward(s, pos, CharClass::Space);
                lemma_scan_forward(s, start, CharClass::Word);
                lemma_scan_forward(s, end, CharClass::Space);
            }
            field_list(s, comma + 1, names)
        } else {
            Ok((names, end))
        }
    }
}

/// What a list of field names selects: a lone `files` or `f` stands for
/// files, a lone `directories`, `dirs` or `d` for directories, anything else
/// for the fields themselves.
pub open spec fn selection_of(names: Seq<Seq<char>>) -> SelectionView {
    if names.len() == 1 && (names[0] == "files"@ || names[0] == "f"@) {
        SelectionView::Files
    } else if names.len() == 1 && (names[0] == "directories"@ || names[0] == "dirs"@ || names[0]
        == "d"@) {
        SelectionView::Directories
    } else {
        SelectionView::Fields(names)
    }
}

/// The rule `"*" | field ("," field)*` from `pos`.
pub open spec fn selection(s: Seq<char>, pos: int) -> Result<(SelectionView, int), ParseError> {
    let start = skip_spaces(s, pos);
    if symbol_at(s, start, '*') {
        Ok((SelectionView::All, start + 1))
    } else if !(0 <= start < s.len() && is_word_start(s[start])) {
        Err(fail(start, ParseErrorKind::ExpectedSelection))
    } else {
        match field_list(s, start, Seq::empty()) {
            Ok((names, end)) => Ok((selection_of(names), end)),
            Err(e) => Err(e),
        }
    }
}

/// Reads a comma-separated list of field names.
pub fn parse_field_list(src: &Source, pos: usize) -> (r: Result<(Vec<String>, usize), ParseError>)
    requires
        pos <= src@.len(),
    ensures
        match r {
            Ok((names, end)) => field_list(src@, pos as int, Seq::empty()) == Ok::<
                (Seq<Seq<char>>, int),
                ParseError,
            >((texts_of(names@), end as int)) && pos < end <= src@.len() && names@.len() > 0,
            Err(e) => field_list(src@, pos as int, Seq::empty()) == Err::<
                (Seq<Seq<char>>, int),
                ParseError,
            >(e),
        },
{
    let mut names: Vec<String> = Vec::new();
    let mut cur: usize = pos;
    assert(texts_of(names@) =~= Seq::<Seq<char>>::empty());
    loop
        invariant
            pos <= cur <= src@.len(),
            field_list(src@, cur as int, texts_of(names@)) == field_list(
                src@,
                pos as int,
                Seq::empty(),
            ),
        decreases src@.len() - cur,
    {
        let start = src.skip_spaces(cur);
        if !src.word_starts(start) {
            return Err(error_at(start, ParseErrorKind::ExpectedField));
        }
        let end = src.scan(start, CharClass::Word);
        let name = src.slice(start, end);
        proof {
            assert(texts_of(names@.push(name)) =~= texts_of(names@).push(name@));
            assert(end > start);
        }
        names.push(name);
        let comma = src.skip_spaces(end);
        if src.symbol(comma, ',') {
            cur = comma + 1;
        } else {
            return Ok((names, end));
        }
    }
}

/// What a list of field names selects.
pub fn selection_from_names(names: Vec<String>) -> (r: SelectionType)
    ensures
        r@ == selection_of(texts_of(names@)),
{
    if names.len() == 1 {
        let only = names[0].as_str();
        assert(texts_of(names@)[0] == names@[0]@);
        if str_equal(only, "files") || str_equal(only, "f") {
            return SelectionType::Files;
        }
        if str_equal(only, "directories") || str_equal(only, "dirs") || str_equal(only, "d") {
            return SelectionType::Directories;
        }
    }
    SelectionType::Fields(names)
}

/// Reads a selection at `pos`.
pub fn parse_selection_at(src: &Source, pos: usize) -> (r: Result<
    (SelectionType, usize),
    ParseError,
>)
    requires
        pos <= src@.len(),
    ensures
        match r {
            Ok((sel, end)) => selection(src@, pos as int) == Ok::<(SelectionView, int), ParseError>(
                (sel@, end as int),
            ) && pos < end <= src@.len(),
            Err(e) => selection(src@, pos as int) == Err::<(SelectionView, int), ParseError>(e),
        },
{
    let start = src.skip_spaces(pos);
    if src.symbol(start, '*') {
        return Ok((SelectionType::All, start + 1));
    }
    if !src.word_starts(start) {
        return Err(error_at(start, ParseErrorKind::ExpectedSelection));
    }
    match parse_field_list(src, start) {
        Ok((names, end)) => Ok((selection_from_names(names), end)),
        Err(e) => Err(e),
    }
}

/// What a text that holds a selection and nothing else selects.
pub open spec fn selection_text(s: Seq<char>) -> Result<SelectionView, ParseError> {
    match selection(s, 0) {
        Err(e) => Err(e),
        Ok((sel, end)) => {
            let rest = skip_spaces(s, end);
            if rest >= s.len() {
                Ok(sel)
            } else {
                Err(fail(rest, ParseErrorKind::TrailingInput))
            }
        },
    }
}

/// Parses a selection that stands alone: `*` or a list of field names.
pub fn parse_selection(text: &str) -> (r: Result<SelectionType, ParseError>)
    ensures
        match r {
            Ok(sel) => selection_text(text@) == Ok::<SelectionView, ParseError>(sel@),
            Err(e) => selection_text(text@) == Err::<SelectionView, ParseError>(e),
        },
{
    let src = Source::new(text);
    let (sel, end) = match parse_selection_at(&src, 0) {
        Ok(found) => found,
        Err(e) => {
            return Err(e);
        },
    };
    let rest = src.skip_spaces(end);
    if rest >= src.len() {
        Ok(sel)
    } else {
        Err(error_at(rest, ParseErrorKind::TrailingInput))
    }
}

} // verus!
