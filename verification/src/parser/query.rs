//! Whole statements: `SELECT` and `DELETE` with their clauses.

use crate::decimal::digits_value;
use crate::parser::condition::{condition, parse_condition};
use crate::parser::selection::{parse_selection_at, selection};
use crate::parser::source::{error_at, fail, keyword_at, symbol_at, word_end, Source};
use crate::parser::value::{number, parse_number, parse_quoted, quoted, NumberToken, NumberView};
use crate::text::{is_digit, is_word_start, lemma_scan_forward, scan, skip_spaces, CharClass};
use crate::types::{
    condition_view, error_text, terms_of, ConditionNode, ConditionNodeView, OrderDirection,
    OrderTerm, OrderTermView, ParseError, ParseErrorKind, Query, QueryType, QueryView,
    SelectionType, SelectionView,
};
use vstd::prelude::*;

verus! {

/// The limit taken when the number of a `LIMIT` clause cannot be read.
pub const DEFAULT_LIMIT: u64 = 100;

/// The rule `quoted_string | path_char+` from `pos`.
pub open spec fn path(s: Seq<char>, pos: int) -> Result<(Seq<char>, int), ParseError> {
    let start = skip_spaces(s, pos);
    if symbol_at(s, start, '"') {
        quoted(s, start)
    } else {
        let end = scan(s, start, CharClass::Path);
        if 0 <= start < end {
            Ok((s.subrange(start, end), end))
        } else {
            Err(fail(start, ParseErrorKind::ExpectedPath))
        }
    }
}

/// The rule `"FROM" path` from `pos`. The clause is required.
pub open spec fn from_clause(s: Seq<char>, pos: int) -> Result<(Seq<char>, int), ParseError> {
    let start = skip_spaces(s, pos);
    if keyword_at(s, start, "from"@) {
        path(s, word_end(s, start))
    } else {
        Err(fail(start, ParseErrorKind::ExpectedFrom))
    }
}

/// The rule `["WHERE" condition]` from `pos`.
pub open spec fn where_clause(s: Seq<char>, pos: int) -> Result<
    (Option<ConditionNodeView>, int),
    ParseError,
> {
    let start = skip_spaces(s, pos);
    if keyword_at(s, start, "where"@) {
        match condition(s, word_end(s, start)) {
            Ok((node, end)) => Ok((Some(node), end)),
            Err(e) => Err(e),
        }
    } else {
        Ok((None, pos))
    }
}

/// The rule `["ASC" | "DESC"]` after a sort key that ends at `pos`.
pub open spec fn direction(s: Seq<char>, pos: int) -> (OrderDirection, int) {
    let start = skip_spaces(s, pos);
    if keyword_at(s, start, "asc"@) {
        (OrderDirection::Ascending, word_end(s, start))
    } else if keyword_at(s, start, "desc"@) {
        (OrderDirection::Descending, word_end(s, start))
    } else {
        (OrderDirection::Ascending, pos)
    }
}

/// The rule `term ("," term)*` from `pos`, where a term is a field name
/// with an optional direction; the terms are added to `acc`.
pub open spec fn order_terms(s: Seq<char>, pos: int, acc: Seq<OrderTermView>) -> Result<
    (Seq<OrderTermView>, int),
    ParseError,
>
    decreases s.len() - pos,
{
    let start = skip_spaces(s, pos);
    if !(0 <= start < s.len() && is_word_start(s[start])) {
        Err(fail(start, ParseErrorKind::ExpectedField))
    } else {
        let name_end = word_end(s, start);
        let (dir, end) = direction(s, name_end);
        let terms = acc.push(OrderTermView { field: s.subrange(start, name_end), direction: dir });
        let comma = skip_spaces(s, end);
        if symbol_at(s, comma, ',') {
            proof {
                lemma_scan_forward(s, pos, CharClass::Space);
                lemma_scan_forward(s, start, CharClass::Word);
                lemma_scan_forward(s, name_end, CharClass::Space);
                lemma_scan_forward(s, skip_spaces(s, name_end), CharClass::Word);
                lemma_scan_forward(s, end, CharClass::Space);
            }
            order_terms(s, comma + 1, terms)
        } else {
            Ok((terms, end))
        }
    }
}

/// The rule `["ORDER" "BY" term ("," term)*]` from `pos`.
pub open spec fn order_clause(s: Seq<char>, pos: int) -> Result<
    (Seq<OrderTermView>, int),
    ParseError,
> {
    let start = skip_spaces(s, pos);
    if keyword_at(s, start, "order"@) {
        let by = skip_spaces(s, word_end(s, start));
        if keyword_at(s, by, "by"@) {
            order_terms(s, word_end(s, by), Seq::empty())
        } else {
            Err(fail(by, ParseErrorKind::ExpectedBy))
        }
    } else {
        Ok((Seq::empty(), pos))
    }
}

/// The limit that the number of a `LIMIT` clause gives, and whether it is
/// the default: a whole number that fits in 64 bits is taken as it stands,
/// whatever unit follows; a number with a fraction, or one too large, gives
/// the default.
pub open spec fn limit_value(n: NumberView) -> (u64, bool) {
    if n.frac.len() == 0 && digits_value(n.whole) <= u64::MAX {
        (digits_value(n.whole) as u64, false)
    } else {
        (DEFAULT_LIMIT, true)
    }
}

/// The rule `["LIMIT" number]` from `pos`.
pub open spec fn limit_clause(s: Seq<char>, pos: int) -> Result<
    (Option<(u64, bool)>, int),
    ParseError,
> {
    let start = skip_spaces(s, pos);
    if keyword_at(s, start, "limit"@) {
        let at = skip_spaces(s, word_end(s, start));
        if 0 <= at < s.len() && is_digit(s[at]) {
            let n = number(s, at);
            Ok((Some(limit_value(n)), n.end))
        } else {
            Err(fail(at, ParseErrorKind::ExpectedNumber))
        }
    } else {
        Ok((None, pos))
    }
}

/// The rule `[";"]` followed by the end of the text, from `pos`: the error
/// if anything else remains.
pub open spec fn statement_end(s: Seq<char>, pos: int) -> Option<ParseError> {
    let start = skip_spaces(s, pos);
    let rest = if symbol_at(s, start, ';') {
        skip_spaces(s, start + 1)
    } else {
        start
    };
    if rest >= s.len() {
        None
    } else {
        Some(fail(rest, ParseErrorKind::TrailingInput))
    }
}

/// The rule `selection "FROM" path [where] [order_by] [limit] [";"]`, after
/// the keyword `SELECT` that ends at `pos`.
pub open spec fn select_query(s: Seq<char>, pos: int) -> Result<QueryView, ParseError> {
    match selection(s, pos) {
        Err(e) => Err(e),
        Ok((sel, at_from)) => match from_clause(s, at_from) {
            Err(e) => Err(e),
            Ok((dir, at_where)) => match where_clause(s, at_where) {
                Err(e) => Err(e),
                Ok((cond, at_order)) => match order_clause(s, at_order) {
                    Err(e) => Err(e),
                    Ok((order, at_limit)) => match limit_clause(s, at_limit) {
                        Err(e) => Err(e),
                        Ok((limit, at_end)) => match statement_end(s, at_end) {
                            Some(e) => Err(e),
                            None => Ok(
                                QueryView {
                                    query_type: QueryType::Select,
                                    selection: sel,
                                    path: dir,
                                    condition: cond,
                                    limit: match limit {
                                        Some((n, _)) => Some(n),
                                        None => None,
                                    },
                                    limit_defaulted: match limit {
                                        Some((_, defaulted)) => defaulted,
                                        None => false,
                                    },
                                    is_recursive: false,
                                    order_by: order,
                                },
                            ),
                        },
                    },
                },
            },
        },
    }
}

/// How many entries the selector of a `DELETE` asks for.
#[derive(Debug, Clone, Copy, PartialEq, Eq, Structural)]
pub enum DeleteCount {
    /// `FIRST`: one entry.
    First,
    /// `MANY n`: at most `n` entries.
    Fixed(u64),
    /// `MANY` without a number that can be read, or a plain selection.
    Open,
}

/// The count that the number after `MANY` gives: the number itself if it is
/// whole, has no unit and fits in 64 bits.
pub open spec fn many_count(n: NumberView) -> DeleteCount {
    if n.frac.len() == 0 && n.unit.len() == 0 && digits_value(n.whole) <= u64::MAX {
        DeleteCount::Fixed(digits_value(n.whole) as u64)
    } else {
        DeleteCount::Open
    }
}

/// The rule `["RECURSIVE" | "R"]` from `pos`.
pub open spec fn recursive_flag(s: Seq<char>, pos: int) -> (bool, int) {
    let start = skip_spaces(s, pos);
    if keyword_at(s, start, "recursive"@) || keyword_at(s, start, "r"@) {
        (true, word_end(s, start))
    } else {
        (false, pos)
    }
}

/// The rule `"FIRST" | "MANY" [number] | selection` from `pos`.
pub open spec fn delete_selector(s: Seq<char>, pos: int) -> Result<
    (SelectionView, DeleteCount, int),
    ParseError,
> {
    let start = skip_spaces(s, pos);
    if keyword_at(s, start, "first"@) {
        Ok((SelectionView::All, DeleteCount::First, word_end(s, start)))
    } else if keyword_at(s, start, "many"@) {
        let at = skip_spaces(s, word_end(s, start));
        if 0 <= at < s.len() && is_digit(s[at]) {
            let n = number(s, at);
            Ok((SelectionView::All, many_count(n), n.end))
        } else {
            Ok((SelectionView::All, DeleteCount::Open, word_end(s, start)))
        }
    } else {
        match selection(s, pos) {
            Ok((sel, end)) => Ok((sel, DeleteCount::Open, end)),
            Err(e) => Err(e),
        }
    }
}

/// The limit of a `DELETE`, and whether it is the default of an unreadable
/// `LIMIT` number. `FIRST` means one entry unless a `LIMIT` clause says
/// otherwise; the number after `MANY` stands whatever a `LIMIT` clause says;
/// without either, the `LIMIT` clause decides.
pub open spec fn delete_limit(count: DeleteCount, clause: Option<(u64, bool)>) -> (
    Option<u64>,
    bool,
) {
    match count {
        DeleteCount::Fixed(n) => (Some(n), false),
        DeleteCount::First => match clause {
            Some((n, defaulted)) => (Some(n), defaulted),
            None => (Some(1), false),
        },
        DeleteCount::Open => match clause {
            Some((n, defaulted)) => (Some(n), defaulted),
            None => (None, false),
        },
    }
}

/// The rule `["RECURSIVE" | "R"] delete_selector "FROM" path [where]
/// [limit] [";"]`, after the keyword `DELETE` that ends at `pos`.
pub open spec fn delete_query(s: Seq<char>, pos: int) -> Result<QueryView, ParseError> {
    let (recursive, at_selector) = recursive_flag(s, pos);
    match delete_selector(s, at_selector) {
        Err(e) => Err(e),
        Ok((sel, count, at_from)) => match from_clause(s, at_from) {
            Err(e) => Err(e),
            Ok((dir, at_where)) => match where_clause(s, at_where) {
                Err(e) => Err(e),
                Ok((cond, at_limit)) => match limit_clause(s, at_limit) {
                    Err(e) => Err(e),
                    Ok((clause, at_end)) => match statement_end(s, at_end) {
                        Some(e) => Err(e),
                        None => Ok(
                            QueryView {
                                query_type: QueryType::Delete,
                                selection: sel,
                                path: dir,
                                condition: cond,
                                limit: delete_limit(count, clause).0,
                                limit_defaulted: delete_limit(count, clause).1,
                                is_recursive: recursive,
                                order_by: Seq::empty(),
                            },
                        ),
                    },
                },
            },
        },
    }
}

/// The rule `select_query | delete_query` on the whole of `s`: what the
/// text means, or why it is rejected.
pub open spec fn query(s: Seq<char>) -> Result<QueryView, ParseError> {
    let start = skip_spaces(s, 0);
    if keyword_at(s, start, "select"@) {
        select_query(s, word_end(s, start))
    } else if keyword_at(s, start, "delete"@) {
        delete_query(s, word_end(s, start))
    } else {
        Err(fail(start, ParseErrorKind::ExpectedStatement))
    }
}

/// Reads a path at `pos`.
pub fn parse_path(src: &Source, pos: usize) -> (r: Result<(String, usize), ParseError>)
    requires
        pos <= src@.len(),
    ensures
        match r {
            Ok((text, end)) => path(src@, pos as int) == Ok::<(Seq<char>, int), ParseError>(
                (text@, end as int),
            ) && pos < end <= src@.len(),
            Err(e) => path(src@, pos as int) == Err::<(Seq<char>, int), ParseError>(e),
        },
{
    let start = src.skip_spaces(pos);
    if src.symbol(start, '"') {
        return parse_quoted(src, start);
    }
    let end = src.scan(start, CharClass::Path);
    if start < end {
        Ok((src.slice(start, end), end))
    } else {
        Err(error_at(start, ParseErrorKind::ExpectedPath))
    }
}

/// Reads the `FROM` clause at `pos`.
pub fn parse_from(src: &Source, pos: usize) -> (r: Result<(String, usize), ParseError>)
    requires
        pos <= src@.len(),
    ensures
        match r {
            Ok((text, end)) => from_clause(src@, pos as int) == Ok::<(Seq<char>, int), ParseError>(
                (text@, end as int),
            ) && pos < end <= src@.len(),
            Err(e) => from_clause(src@, pos as int) == Err::<(Seq<char>, int), ParseError>(e),
        },
{
    let start = src.skip_spaces(pos);
    match src.keyword(start, "from") {
        Some(after) => parse_path(src, after),
        None => Err(error_at(start, ParseErrorKind::ExpectedFrom)),
    }
}

/// Reads the `WHERE` clause at `pos`, if one stands there.
pub fn parse_where(src: &Source, pos: usize) -> (r: Result<
    (Option<ConditionNode>, usize),
    ParseError,
>)
    requires
        pos <= src@.len(),
    ensures
        match r {
            Ok((cond, end)) => where_clause(src@, pos as int) == Ok::<
                (Option<ConditionNodeView>, int),
                ParseError,
            >((condition_view(cond), end as int)) && pos <= end <= src@.len(),
            Err(e) => where_clause(src@, pos as int) == Err::<
                (Option<ConditionNodeView>, int),
                ParseError,
            >(e),
        },
{
    let start = src.skip_spaces(pos);
    match src.keyword(start, "where") {
        Some(after) => match parse_condition(src, after) {
            Ok((node, end)) => Ok((Some(node), end)),
            Err(e) => Err(e),
        },
        None => Ok((None, pos)),
    }
}

/// Reads the direction after a sort key that ends at `pos`.
pub fn parse_direction(src: &Source, pos: usize) -> (r: (OrderDirection, usize))
    requires
        pos <= src@.len(),
    ensures
        direction(src@, pos as int) == (r.0, r.1 as int),
        pos <= r.1 <= src@.len(),
{
    let start = src.skip_spaces(pos);
    if let Some(end) = src.keyword(start, "asc") {
        return (OrderDirection::Ascending, end);
    }
    if let Some(end) = src.keyword(start, "desc") {
        return (OrderDirection::Descending, end);
    }
    (OrderDirection::Ascending, pos)
}

/// Reads a comma-separated list of sort keys at `pos`.
pub fn parse_order_terms(src: &Source, pos: usize) -> (r: Result<
    (Vec<OrderTerm>, usize),
    ParseError,
>)
    requires
        pos <= src@.len(),
    ensures
        match r {
            Ok((terms, end)) => order_terms(src@, pos as int, Seq::empty()) == Ok::<
                (Seq<OrderTermView>, int),
                ParseError,
            >((terms_of(terms@), end as int)) && pos < end <= src@.len(),
            Err(e) => order_terms(src@, pos as int, Seq::empty()) == Err::<
                (Seq<OrderTermView>, int),
                ParseError,
            >(e),
        },
{
    let mut terms: Vec<OrderTerm> = Vec::new();
    let mut cur: usize = pos;
    assert(terms_of(terms@) =~= Seq::<OrderTermView>::empty());
    loop
        invariant
            pos <= cur <= src@.len(),
            order_terms(src@, cur as int, terms_of(terms@)) == order_terms(
                src@,
                pos as int,
                Seq::empty(),
            ),
        decreases src@.len() - cur,
    {
        let start = src.skip_spaces(cur);
        if !src.word_starts(start) {
            return Err(error_at(start, ParseErrorKind::ExpectedField));
        }
        let name_end = src.scan(start, CharClass::Word);
        let (dir, end) = parse_direction(src, name_end);
        let term = OrderTerm { field: src.slice(start, name_end), direction: dir };
        proof {
            assert(terms_of(terms@.push(term)) =~= terms_of(terms@).push(term@));
        }
        terms.push(term);
        let comma = src.skip_spaces(end);
        if src.symbol(comma, ',') {
            cur = comma + 1;
        } else {
            return Ok((terms, end));
        }
    }
}

/// Reads the `ORDER BY` clause at `pos`, if one stands there.
pub fn parse_order_by(src: &Source, pos: usize) -> (r: Result<(Vec<OrderTerm>, usize), ParseError>)
    requires
        pos <= src@.len(),
    ensures
        match r {
            Ok((terms, end)) => order_clause(src@, pos as int) == Ok::<
                (Seq<OrderTermView>, int),
                ParseError,
            >((terms_of(terms@), end as int)) && pos <= end <= src@.len(),
            Err(e) => order_clause(src@, pos as int) == Err::<
                (Seq<OrderTermView>, int),
                ParseError,
            >(e),
        },
{
    let start = src.skip_spaces(pos);
    match src.keyword(start, "order") {
        Some(after) => {
            let by = src.skip_spaces(after);
            match src.keyword(by, "by") {
                Some(after_by) => parse_order_terms(src, after_by),
                None => Err(error_at(by, ParseErrorKind::ExpectedBy)),
            }
        },
        None => {
            let terms: Vec<OrderTerm> = Vec::new();
            assert(terms_of(terms@) =~= Seq::<OrderTermView>::empty());
            Ok((terms, pos))
        },
    }
}

/// The limit that the number of a `LIMIT` clause gives, and whether it is
/// the default.
pub fn limit_from_number(token: &NumberToken) -> (r: (u64, bool))
    ensures
        r == limit_value(token@),
{
    if token.digits.has_fraction() {
        return (DEFAULT_LIMIT, true);
    }
    match token.digits.whole_as_u64() {
        Some(n) => (n, false),
        None => (DEFAULT_LIMIT, true),
    }
}

/// Reads the `LIMIT` clause at `pos`, if one stands there.
pub fn parse_limit(src: &Source, pos: usize) -> (r: Result<
    (Option<(u64, bool)>, usize),
    ParseError,
>)
    requires
        pos <= src@.len(),
    ensures
        match r {
            Ok((limit, end)) => limit_clause(src@, pos as int) == Ok::<
                (Option<(u64, bool)>, int),
                ParseError,
            >((limit, end as int)) && pos <= end <= src@.len(),
            Err(e) => limit_clause(src@, pos as int) == Err::<
                (Option<(u64, bool)>, int),
                ParseError,
            >(e),
        },
{
    let start = src.skip_spaces(pos);
    match src.keyword(start, "limit") {
        Some(after) => {
            let at = src.skip_spaces(after);
            if src.digit_starts(at) {
                let token = parse_number(src, at);
                Ok((Some(limit_from_number(&token)), token.end))
            } else {
                Err(error_at(at, ParseErrorKind::ExpectedNumber))
            }
        },
        None => Ok((None, pos)),
    }
}

/// Checks that nothing but an optional `;` remains at `pos`.
pub fn parse_statement_end(src: &Source, pos: usize) -> (r: Option<ParseError>)
    requires
        pos <= src@.len(),
    ensures
        r == statement_end(src@, pos as int),
{
    let start = src.skip_spaces(pos);
    let rest = if src.symbol(start, ';') {
        src.skip_spaces(start + 1)
    } else {
        start
    };
    if rest >= src.len() {
        None
    } else {
        Some(error_at(rest, ParseErrorKind::TrailingInput))
    }
}

/// Reads a `SELECT` statement after its keyword.
pub fn parse_select(src: &Source, pos: usize) -> (r: Result<Query, ParseError>)
    requires
        pos <= src@.len(),
    ensures
        match r {
            Ok(q) => select_query(src@, pos as int) == Ok::<QueryView, ParseError>(q@),
            Err(e) => select_query(src@, pos as int) == Err::<QueryView, ParseError>(e),
        },
{
    let (sel, at_from) = match parse_selection_at(src, pos) {
        Ok(found) => found,
        Err(e) => {
            return Err(e);
        },
    };
    let (dir, at_where) = match parse_from(src, at_from) {
        Ok(found) => found,
        Err(e) => {
            return Err(e);
        },
    };
    let (cond, at_order) = match parse_where(src, at_where) {
        Ok(found) => found,
        Err(e) => {
            return Err(e);
        },
    };
    let (order, at_limit) = match parse_order_by(src, at_order) {
        Ok(found) => found,
        Err(e) => {
            return Err(e);
        },
    };
    let (limit, at_end) = match parse_limit(src, at_limit) {
        Ok(found) => found,
        Err(e) => {
            return Err(e);
        },
    };
    if let Some(e) = parse_statement_end(src, at_end) {
        return Err(e);
    }
    let (count, defaulted) = match limit {
        Some((n, defaulted)) => (Some(n), defaulted),
        None => (None, false),
    };
    Ok(
        Query {
            query_type: QueryType::Select,
            selection: sel,
            path: dir,
            condition: cond,
            limit: count,
            limit_defaulted: defaulted,
            is_recursive: false,
            order_by: order,
        },
    )
}

/// The count that the number after `MANY` gives.
pub fn count_from_number(token: &NumberToken) -> (r: DeleteCount)
    ensures
        r == many_count(token@),
{
    if token.digits.has_fraction() || token.unit.as_str().unicode_len() > 0 {
        return DeleteCount::Open;
    }
    match token.digits.whole_as_u64() {
        Some(n) => DeleteCount::Fixed(n),
        None => DeleteCount::Open,
    }
}

/// Reads the recursive flag at `pos`, if one stands there.
pub fn parse_recursive_flag(src: &Source, pos: usize) -> (r: (bool, usize))
    requires
        pos <= src@.len(),
    ensures
        recursive_flag(src@, pos as int) == (r.0, r.1 as int),
        pos <= r.1 <= src@.len(),
{
    let start = src.skip_spaces(pos);
    if let Some(end) = src.keyword(start, "recursive") {
        return (true, end);
    }
    if let Some(end) = src.keyword(start, "r") {
        return (true, end);
    }
    (false, pos)
}

/// Reads the selector of a `DELETE` at `pos`.
pub fn parse_delete_selection(src: &Source, pos: usize) -> (r: Result<
    (SelectionType, DeleteCount, usize),
    ParseError,
>)
    requires
        pos <= src@.len(),
    ensures
        match r {
            Ok((sel, count, end)) => delete_selector(src@, pos as int) == Ok::<
                (SelectionView, DeleteCount, int),
                ParseError,
            >((sel@, count, end as int)) && pos <= end <= src@.len(),
            Err(e) => delete_selector(src@, pos as int) == Err::<
                (SelectionView, DeleteCount, int),
                ParseError,
            >(e),
        },
{
    let start = src.skip_spaces(pos);
    if let Some(end) = src.keyword(start, "first") {
        return Ok((SelectionType::All, DeleteCount::First, end));
    }
    if let Some(end) = src.keyword(start, "many") {
        let at = src.skip_spaces(end);
        if src.digit_starts(at) {
            let token = parse_number(src, at);
            return Ok((SelectionType::All, count_from_number(&token), token.end));
        }
        return Ok((SelectionType::All, DeleteCount::Open, end));
    }
    match parse_selection_at(src, pos) {
        Ok((sel, end)) => Ok((sel, DeleteCount::Open, end)),
        Err(e) => Err(e),
    }
}

/// The limit of a `DELETE` from its selector and its `LIMIT` clause.
pub fn resolve_delete_limit(count: DeleteCount, clause: Option<(u64, bool)>) -> (r: (
    Option<u64>,
    bool,
))
    ensures
        r == delete_limit(count, clause),
{
    match count {
        DeleteCount::Fixed(n) => (Some(n), false),
        DeleteCount::First => match clause {
            Some((n, defaulted)) => (Some(n), defaulted),
            None => (Some(1), false),
        },
        DeleteCount::Open => match clause {
            Some((n, defaulted)) => (Some(n), defaulted),
            None => (None, false),
        },
    }
}

/// Reads a `DELETE` statement after its keyword.
pub fn parse_delete(src: &Source, pos: usize) -> (r: Result<Query, ParseError>)
    requires
        pos <= src@.len(),
    ensures
        match r {
            Ok(q) => delete_query(src@, pos as int) == Ok::<QueryView, ParseError>(q@),
            Err(e) => delete_query(src@, pos as int) == Err::<QueryView, ParseError>(e),
        },
{
    let (recursive, at_selector) = parse_recursive_flag(src, pos);
    let (sel, count, at_from) = match parse_delete_selection(src, at_selector) {
        Ok(found) => found,
        Err(e) => {
            return Err(e);
        },
    };
    let (dir, at_where) = match parse_from(src, at_from) {
        Ok(found) => found,
        Err(e) => {
            return Err(e);
        },
    };
    let (cond, at_limit) = match parse_where(src, at_where) {
        Ok(found) => found,
        Err(e) => {
            return Err(e);
        },
    };
    let (clause, at_end) = match parse_limit(src, at_limit) {
        Ok(found) => found,
        Err(e) => {
            return Err(e);
        },
    };
    if let Some(e) = parse_statement_end(src, at_end) {
        return Err(e);
    }
    let (limit, defaulted) = resolve_delete_limit(count, clause);
    let order: Vec<OrderTerm> = Vec::new();
    assert(terms_of(order@) =~= Seq::<OrderTermView>::empty());
    Ok(
        Query {
            query_type: QueryType::Delete,
            selection: sel,
            path: dir,
            condition: cond,
            limit,
            limit_defaulted: defaulted,
            is_recursive: recursive,
            order_by: order,
        },
    )
}

/// Parses one statement: `Ok` with the query that `text` means, or the
/// error with the position at which the grammar is broken. Nothing is
/// returned for a text that is only partly a query.
pub fn parse(text: &str) -> (r: Result<Query, ParseError>)
    ensures
        match r {
            Ok(q) => query(text@) == Ok::<QueryView, ParseError>(q@),
            Err(e) => query(text@) == Err::<QueryView, ParseError>(e),
        },
{
    let src = Source::new(text);
    let start = src.skip_spaces(0);
    if let Some(after) = src.keyword(start, "select") {
        return parse_select(&src, after);
    }
    if let Some(after) = src.keyword(start, "delete") {
        return parse_delete(&src, after);
    }
    Err(error_at(start, ParseErrorKind::ExpectedStatement))
}

/// The parser of the query language.
#[derive(Debug, Clone, Copy)]
pub struct LSQLParser;

impl LSQLParser {
    /// Parses one statement: `Ok` with the query that `query_str` means, or
    /// the message of the error that rejects it.
    pub fn parse_query(query_str: &str) -> (r: Result<Query, String>)
        ensures
            match r {
                Ok(q) => query(query_str@) == Ok::<QueryView, ParseError>(q@),
                Err(message) => query(query_str@) is Err && message@ == error_text(
                    query(query_str@)->Err_0,
                ),
            },
    {
        match parse(query_str) {
            Ok(q) => Ok(q),
            Err(e) => Err(e.message()),
        }
    }
}

/// Where the statement that starts at `pos` ends: at the first `;` that
/// stands outside a quoted string, or at the end of the text.
pub open spec fn next_break(s: Seq<char>, pos: int) -> int
    decreases s.len() - pos,
{
    if !(0 <= pos < s.len()) {
        s.len() as int
    } else if s[pos] == ';' {
        pos
    } else if s[pos] == '"' {
        let close = scan(s, pos + 1, CharClass::Quoted);
        if close < s.len() {
            proof {
                lemma_scan_forward(s, pos + 1, CharClass::Quoted);
            }
            next_break(s, close + 1)
        } else {
            s.len() as int
        }
    } else {
        next_break(s, pos + 1)
    }
}

/// Whether a text holds nothing but white space.
pub open spec fn is_blank(s: Seq<char>) -> bool {
    skip_spaces(s, 0) >= s.len()
}

/// The statements of a text from `pos` on, added to `acc`: the pieces
/// between the breaks, those left out that hold nothing but white space.
pub open spec fn statements(s: Seq<char>, pos: int, acc: Seq<Seq<char>>) -> Seq<Seq<char>>
    decreases s.len() - pos,
{
    if !(0 <= pos < s.len()) {
        acc
    } else {
        let end = next_break(s, pos);
        let piece = s.subrange(pos, end);
        let found = if is_blank(piece) {
            acc
        } else {
            acc.push(piece)
        };
        if pos <= end < s.len() {
            statements(s, end + 1, found)
        } else {
            found
        }
    }
}

/// Whether what the parser returned for a statement is what the statement
/// means.
pub open spec fn is_result_of(r: Result<Query, ParseError>, statement: Seq<char>) -> bool {
    match r {
        Ok(q) => query(statement) == Ok::<QueryView, ParseError>(q@),
        Err(e) => query(statement) == Err::<QueryView, ParseError>(e),
    }
}

/// Finds the end of the statement that starts at `pos`.
fn find_break(chars: &Vec<char>, pos: usize) -> (end: usize)
    requires
        pos <= chars@.len(),
    ensures
        end == next_break(chars@, pos as int),
        pos <= end <= chars@.len(),
{
    let n = chars.len();
    let mut cur: usize = pos;
    while cur < n
        invariant
            pos <= cur <= n,
            n == chars@.len(),
            next_break(chars@, cur as int) == next_break(chars@, pos as int),
        decreases n - cur,
    {
        let c = chars[cur];
        if c == ';' {
            return cur;
        }
        if c == '"' {
            let close = crate::text::scan_class(chars, cur + 1, CharClass::Quoted);
            if close < n {
                cur = close + 1;
            } else {
                return n;
            }
        } else {
            cur = cur + 1;
        }
    }
    n
}

/// Parses a text of several statements separated by `;`. Each statement
/// is parsed on its own: the result holds, in order, the query or the error
/// of every statement that is not blank, and an error in one does not touch
/// the others. Positions in an error count from the start of its statement.
pub fn parse_statements(text: &str) -> (r: Vec<Result<Query, ParseError>>)
    ensures
        r@.len() == statements(text@, 0, Seq::empty()).len(),
        forall|i: int|
            0 <= i < r@.len() ==> is_result_of(
                #[trigger] r@[i],
                statements(text@, 0, Seq::empty())[i],
            ),
{
    let chars = crate::text::chars_of(text);
    let n = chars.len();
    let mut out: Vec<Result<Query, ParseError>> = Vec::new();
    let mut pos: usize = 0;
    let ghost mut pieces: Seq<Seq<char>> = Seq::empty();
    while pos < n
        invariant
            pos <= n,
            n == chars@.len(),
            chars@ == text@,
            statements(text@, pos as int, pieces) == statements(text@, 0, Seq::empty()),
            out@.len() == pieces.len(),
            forall|i: int| 0 <= i < out@.len() ==> is_result_of(#[trigger] out@[i], pieces[i]),
        decreases n - pos,
    {
        let end = find_break(&chars, pos);
        let ghost piece = text@.subrange(pos as int, end as int);
        let mut first: usize = pos;
        while first < end && crate::text::char_is_space(chars[first])
            invariant
                pos <= first <= end <= n,
                n == chars@.len(),
                chars@ == text@,
                piece == text@.subrange(pos as int, end as int),
                skip_spaces(piece, first - pos) == skip_spaces(piece, 0),
            decreases end - first,
        {
            assert(piece[first - pos] == chars@[first as int]);
            first = first + 1;
        }
        proof {
            if first < end {
                assert(piece[first - pos] == chars@[first as int]);
            }
            assert(is_blank(piece) == (first == end));
        }
        if first < end {
            let statement = text.substring_char(pos, end);
            let parsed = parse(statement);
            proof {
                let before = out@;
                assert forall|i: int| 0 <= i < before.push(parsed).len() implies is_result_of(
                    #[trigger] before.push(parsed)[i],
                    pieces.push(piece)[i],
                ) by {
                    if i < before.len() {
                        assert(before.push(parsed)[i] == before[i]);
                    }
                }
                pieces = pieces.push(piece);
            }
            out.push(parsed);
        }
        if end < n {
            pos = end + 1;
        } else {
            return out;
        }
    }
    out
}

} // verus!
