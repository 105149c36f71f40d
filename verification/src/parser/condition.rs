//! The `WHERE` condition: comparisons joined by `AND` and `OR`, with
//! parentheses.

use crate::parser::source::{error_at, fail, keyword_at, symbol_at, word_end, Source};
use crate::parser::value::{lemma_keyword_is_not_empty, parse_value, value};
use crate::text::{is_word_start, lemma_scan_forward, skip_spaces, CharClass};
use crate::types::{
    ComparisonOperator, Condition, ConditionNode, ConditionNodeView, ConditionView,
    LogicalOperator, ParseError, ParseErrorKind,
};
use vstd::prelude::*;

verus! {

/// The rule `"=" | "!=" | "<" | "<=" | ">" | ">=" | "LIKE" | "CONTAINS"`
/// from `pos`.
pub open spec fn operator(s: Seq<char>, pos: int) -> Result<(ComparisonOperator, int), ParseError> {
    let start = skip_spaces(s, pos);
    if symbol_at(s, start, '!') && symbol_at(s, start + 1, '=') {
        Ok((ComparisonOperator::NotEqual, start + 2))
    } else if symbol_at(s, start, '<') {
        if symbol_at(s, start + 1, '=') {
            Ok((ComparisonOperator::LessOrEqual, start + 2))
        } else {
            Ok((ComparisonOperator::LessThan, start + 1))
        }
    } else if symbol_at(s, start, '>') {
        if symbol_at(s, start + 1, '=') {
            Ok((ComparisonOperator::GreaterOrEqual, start + 2))
        } else {
            Ok((ComparisonOperator::GreaterThan, start + 1))
        }
    } else if symbol_at(s, start, '=') {
        Ok((ComparisonOperator::Equal, start + 1))
    } else if keyword_at(s, start, "like"@) {
        Ok((ComparisonOperator::Like, word_end(s, start)))
    } else if keyword_at(s, start, "contains"@) {
        Ok((ComparisonOperator::Contains, word_end(s, start)))
    } else {
        Err(fail(start, ParseErrorKind::ExpectedOperator))
    }
}

/// The rule `identifier operator literal`, the identifier starting at `pos`.
pub open spec fn comparison(s: Seq<char>, pos: int) -> Result<(ConditionNodeView, int), ParseError> {
    if !(0 <= pos < s.len() && is_word_start(s[pos])) {
        Err(fail(pos, ParseErrorKind::ExpectedIdentifier))
    } else {
        let name_end = word_end(s, pos);
        match operator(s, name_end) {
            Err(e) => Err(e),
            Ok((op, after_op)) => match value(s, after_op) {
                Err(e) => Err(e),
                Ok((v, end)) => Ok(
                    (
                        ConditionNodeView::Leaf(
                            ConditionView {
                                identifier: s.subrange(pos, name_end),
                                operator: op,
                                value: v,
                            },
                        ),
                        end,
                    ),
                ),
            },
        }
    }
}

/// The logical operator whose keyword stands at `pos`, if one does.
pub open spec fn joiner(s: Seq<char>, pos: int) -> Option<LogicalOperator> {
    if keyword_at(s, pos, "and"@) {
        Some(LogicalOperator::And)
    } else if keyword_at(s, pos, "or"@) {
        Some(LogicalOperator::Or)
    } else {
        None
    }
}

/// The rule `comparison | "(" condition ")"` from `pos`.
pub open spec fn primary(s: Seq<char>, pos: int) -> Result<(ConditionNodeView, int), ParseError>
    decreases s.len() - pos, 1int,
{
    let start = skip_spaces(s, pos);
    if symbol_at(s, start, '(') {
        proof {
            lemma_scan_forward(s, pos, CharClass::Space);
        }
        match condition(s, start + 1) {
            Err(e) => Err(e),
            Ok((node, end)) => {
                let close = skip_spaces(s, end);
                if symbol_at(s, close, ')') {
                    Ok((node, close + 1))
                } else {
                    Err(fail(close, ParseErrorKind::ExpectedClosingParen))
                }
            },
        }
    } else {
        comparison(s, start)
    }
}

/// The rule `primary (("AND" | "OR") primary)*` from `pos`. The operators
/// associate to the left and have the same precedence.
///
/// A primary never ends where it starts; the test on `next` lets the
/// definition show that it is well founded, and never fails.
pub open spec fn condition(s: Seq<char>, pos: int) -> Result<(ConditionNodeView, int), ParseError>
    decreases s.len() - pos, 2int,
{
    match primary(s, pos) {
        Err(e) => Err(e),
        Ok((first, next)) => if pos < next <= s.len() {
            condition_tail(s, next, first)
        } else {
            Ok((first, next))
        },
    }
}

/// The rule `(("AND" | "OR") primary)*` from `pos`, joined onto `acc`. The
/// test on `next` never fails either.
pub open spec fn condition_tail(s: Seq<char>, pos: int, acc: ConditionNodeView) -> Result<
    (ConditionNodeView, int),
    ParseError,
>
    decreases s.len() - pos, 0int,
{
    let start = skip_spaces(s, pos);
    match joiner(s, start) {
        None => Ok((acc, pos)),
        Some(op) => {
            let after = word_end(s, start);
            proof {
                lemma_scan_forward(s, pos, CharClass::Space);
                reveal_strlit("and");
                reveal_strlit("or");
                if keyword_at(s, start, "and"@) {
                    lemma_keyword_is_not_empty(s, start, "and"@);
                } else {
                    lemma_keyword_is_not_empty(s, start, "or"@);
                }
                crate::text::lemma_scan(s, start, CharClass::Word);
                assert(pos < after <= s.len());
            }
            match primary(s, after) {
                Err(e) => Err(e),
                Ok((rhs, next)) => {
                    let joined = ConditionNodeView::Branch {
                        left: Box::new(acc),
                        operator: op,
                        right: Box::new(rhs),
                    };
                    if after < next <= s.len() {
                        condition_tail(s, next, joined)
                    } else {
                        Ok((joined, next))
                    }
                },
            }
        },
    }
}

/// An operator that is read ends behind where it was looked for, within
/// the text.
pub proof fn lemma_operator_advances(s: Seq<char>, pos: int)
    requires
        0 <= pos <= s.len(),
    ensures
        operator(s, pos) matches Ok((_, end)) ==> pos < end <= s.len(),
{
    let start = skip_spaces(s, pos);
    crate::text::lemma_scan(s, pos, CharClass::Space);
    if keyword_at(s, start, "like"@) {
        reveal_strlit("like");
        lemma_keyword_is_not_empty(s, start, "like"@);
        crate::text::lemma_scan(s, start, CharClass::Word);
    }
    if keyword_at(s, start, "contains"@) {
        reveal_strlit("contains");
        lemma_keyword_is_not_empty(s, start, "contains"@);
        crate::text::lemma_scan(s, start, CharClass::Word);
    }
}

/// A comparison that is read ends behind where it starts, within the text.
pub proof fn lemma_comparison_advances(s: Seq<char>, pos: int)
    requires
        0 <= pos <= s.len(),
    ensures
        comparison(s, pos) matches Ok((_, end)) ==> pos < end <= s.len(),
{
    if 0 <= pos < s.len() && is_word_start(s[pos]) {
        let name_end = word_end(s, pos);
        crate::text::lemma_scan(s, pos, CharClass::Word);
        lemma_operator_advances(s, name_end);
        match operator(s, name_end) {
            Ok((_, after_op)) => {
                crate::parser::value::lemma_value_advances(s, after_op);
            },
            Err(_) => {},
        }
    }
}

/// The tests that make the rules of a condition well founded never fail:
/// whatever a rule reads ends behind where it was looked for, within the
/// text.
pub proof fn lemma_condition_advances(s: Seq<char>, pos: int)
    requires
        0 <= pos <= s.len(),
    ensures
        primary(s, pos) matches Ok((_, end)) ==> pos < end <= s.len(),
        condition(s, pos) matches Ok((_, end)) ==> pos < end <= s.len(),
    decreases s.len() - pos, 1int,
{
    let start = skip_spaces(s, pos);
    crate::text::lemma_scan(s, pos, CharClass::Space);
    if symbol_at(s, start, '(') {
        lemma_condition_advances(s, start + 1);
        match condition(s, start + 1) {
            Ok((_, end)) => {
                crate::text::lemma_scan(s, end, CharClass::Space);
            },
            Err(_) => {},
        }
    } else {
        lemma_comparison_advances(s, start);
    }
    match primary(s, pos) {
        Ok((first, next)) => {
            lemma_condition_tail_advances(s, next, first);
        },
        Err(_) => {},
    }
}

/// What the tail of a condition reads ends at or behind where it was
/// looked for, within the text.
pub proof fn lemma_condition_tail_advances(s: Seq<char>, pos: int, acc: ConditionNodeView)
    requires
        0 <= pos <= s.len(),
    ensures
        condition_tail(s, pos, acc) matches Ok((_, end)) ==> pos <= end <= s.len(),
    decreases s.len() - pos, 0int,
{
    let start = skip_spaces(s, pos);
    crate::text::lemma_scan(s, pos, CharClass::Space);
    match joiner(s, start) {
        None => {},
        Some(op) => {
            let after = word_end(s, start);
            reveal_strlit("and");
            reveal_strlit("or");
            if keyword_at(s, start, "and"@) {
                lemma_keyword_is_not_empty(s, start, "and"@);
            } else {
                lemma_keyword_is_not_empty(s, start, "or"@);
            }
            crate::text::lemma_scan(s, start, CharClass::Word);
            lemma_condition_advances(s, after);
            match primary(s, after) {
                Ok((rhs, next)) => {
                    let joined = ConditionNodeView::Branch {
                        left: Box::new(acc),
                        operator: op,
                        right: Box::new(rhs),
                    };
                    lemma_condition_tail_advances(s, next, joined);
                },
                Err(_) => {},
            }
        },
    }
}

/// Reads a comparison operator at `pos`.
pub fn parse_operator(src: &Source, pos: usize) -> (r: Result<
    (ComparisonOperator, usize),
    ParseError,
>)
    requires
        pos <= src@.len(),
    ensures
        match r {
            Ok((op, end)) => operator(src@, pos as int) == Ok::<
                (ComparisonOperator, int),
                ParseError,
            >((op, end as int)) && pos < end <= src@.len(),
            Err(e) => operator(src@, pos as int) == Err::<(ComparisonOperator, int), ParseError>(e),
        },
{
    let start = src.skip_spaces(pos);
    if src.symbol(start, '!') && src.symbol(start + 1, '=') {
        return Ok((ComparisonOperator::NotEqual, start + 2));
    }
    if src.symbol(start, '<') {
        if src.symbol(start + 1, '=') {
            return Ok((ComparisonOperator::LessOrEqual, start + 2));
        }
        return Ok((ComparisonOperator::LessThan, start + 1));
    }
    if src.symbol(start, '>') {
        if src.symbol(start + 1, '=') {
            return Ok((ComparisonOperator::GreaterOrEqual, start + 2));
        }
        return Ok((ComparisonOperator::GreaterThan, start + 1));
    }
    if src.symbol(start, '=') {
        return Ok((ComparisonOperator::Equal, start + 1));
    }
    if let Some(end) = src.keyword(start, "like") {
        proof {
            reveal_strlit("like");
        }
        return Ok((ComparisonOperator::Like, end));
    }
    if let Some(end) = src.keyword(start, "contains") {
        proof {
            reveal_strlit("contains");
        }
        return Ok((ComparisonOperator::Contains, end));
    }
    Err(error_at(start, ParseErrorKind::ExpectedOperator))
}

/// Reads a comparison whose identifier starts at `pos`.
pub fn parse_comparison(src: &Source, pos: usize) -> (r: Result<(ConditionNode, usize), ParseError>)
    requires
        pos <= src@.len(),
    ensures
        match r {
            Ok((node, end)) => comparison(src@, pos as int) == Ok::<
                (ConditionNodeView, int),
                ParseError,
            >((node@, end as int)) && pos < end <= src@.len(),
            Err(e) => comparison(src@, pos as int) == Err::<(ConditionNodeView, int), ParseError>(
                e,
            ),
        },
{
    if !src.word_starts(pos) {
        return Err(error_at(pos, ParseErrorKind::ExpectedIdentifier));
    }
    let name_end = src.scan(pos, CharClass::Word);
    let (op, after_op) = match parse_operator(src, name_end) {
        Ok(found) => found,
        Err(e) => {
            return Err(e);
        },
    };
    let (v, end) = match parse_value(src, after_op) {
        Ok(found) => found,
        Err(e) => {
            return Err(e);
        },
    };
    let identifier = src.slice(pos, name_end);
    Ok((ConditionNode::Leaf(Condition { identifier, operator: op, value: v }), end))
}

/// Reads the logical operator at `pos`, if one stands there.
pub fn parse_joiner(src: &Source, pos: usize) -> (r: Option<(LogicalOperator, usize)>)
    requires
        pos <= src@.len(),
    ensures
        match r {
            Some((op, end)) => joiner(src@, pos as int) == Some(op) && end == word_end(
                src@,
                pos as int,
            ) && pos < end <= src@.len(),
            None => joiner(src@, pos as int) is None,
        },
{
    if let Some(end) = src.keyword(pos, "and") {
        proof {
            reveal_strlit("and");
        }
        return Some((LogicalOperator::And, end));
    }
    if let Some(end) = src.keyword(pos, "or") {
        proof {
            reveal_strlit("or");
        }
        return Some((LogicalOperator::Or, end));
    }
    None
}

/// Reads a comparison or a parenthesised condition at `pos`.
pub fn parse_primary(src: &Source, pos: usize) -> (r: Result<(ConditionNode, usize), ParseError>)
    requires
        pos <= src@.len(),
    ensures
        match r {
            Ok((node, end)) => primary(src@, pos as int) == Ok::<
                (ConditionNodeView, int),
                ParseError,
            >((node@, end as int)) && pos < end <= src@.len(),
            Err(e) => primary(src@, pos as int) == Err::<(ConditionNodeView, int), ParseError>(e),
        },
    decreases src@.len() - pos, 1int,
{
    let start = src.skip_spaces(pos);
    if src.symbol(start, '(') {
        let (node, end) = match parse_condition(src, start + 1) {
            Ok(found) => found,
            Err(e) => {
                return Err(e);
            },
        };
        let close = src.skip_spaces(end);
        if src.symbol(close, ')') {
            return Ok((node, close + 1));
        }
        return Err(error_at(close, ParseErrorKind::ExpectedClosingParen));
    }
    parse_comparison(src, start)
}

/// Reads a condition at `pos`.
pub fn parse_condition(src: &Source, pos: usize) -> (r: Result<(ConditionNode, usize), ParseError>)
    requires
        pos <= src@.len(),
    ensures
        match r {
            Ok((node, end)) => condition(src@, pos as int) == Ok::<
                (ConditionNodeView, int),
                ParseError,
            >((node@, end as int)) && pos < end <= src@.len(),
            Err(e) => condition(src@, pos as int) == Err::<(ConditionNodeView, int), ParseError>(e),
        },
    decreases src@.len() - pos, 2int,
{
    let (first, next) = match parse_primary(src, pos) {
        Ok(found) => found,
        Err(e) => {
            return Err(e);
        },
    };
    let mut acc: ConditionNode = first;
    let mut cur: usize = next;
    loop
        invariant
            pos < cur <= src@.len(),
            condition_tail(src@, cur as int, acc@) == condition(src@, pos as int),
        decreases src@.len() - cur,
    {
        let start = src.skip_spaces(cur);
        let (op, after) = match parse_joiner(src, start) {
            Some(found) => found,
            None => {
                return Ok((acc, cur));
            },
        };
        let (rhs, next) = match parse_primary(src, after) {
            Ok(found) => found,
            Err(e) => {
                return Err(e);
            },
        };
        acc = ConditionNode::Branch { left: Box::new(acc), operator: op, right: Box::new(rhs) };
        cur = next;
    }
}

} // verus!
