//! What is wrong with a comparison before any entry is looked at: the
//! evaluator never fails, it matches nothing; this module says why.

use crate::entry::EntryView;
use crate::filter::{
    field_named, leaf_matches, like_pattern, lookup_field, parse_midnight, regex_is_valid,
    regex_match, unit_is_known, wildcard_to_regex, Field,
};
use crate::text::lower_case;
use crate::types::{
    ComparisonOperator, Condition, ConditionNode, ConditionNodeView, ConditionView, Value,
    ValueView,
};
use vstd::prelude::*;

verus! {

/// What is wrong with a comparison.
#[derive(Debug, Clone, Copy, PartialEq, Eq, Structural)]
pub enum EvaluationWarning {
    /// The identifier names no field.
    UnknownField,
    /// The literal is of the wrong kind for the field.
    InvalidValue,
    /// The field does not support the operator.
    InvalidOperator,
    /// The string does not read as a date.
    InvalidDate,
    /// The wildcard pattern gives no valid expression; it matches only
    /// the empty text.
    InvalidPattern,
    /// The unit is none of `b`, `kb`, `mb`, `gb`, `tb`; the number counts
    /// bytes.
    UnknownUnit,
}

impl EvaluationWarning {
    /// Whether a comparison with this warning matches no entry at all.
    pub open spec fn is_fatal(self) -> bool {
        self != EvaluationWarning::InvalidPattern && self != EvaluationWarning::UnknownUnit
    }

    /// Whether a comparison with this warning matches no entry at all.
    pub fn matches_nothing(&self) -> (r: bool)
        ensures
            r == self.is_fatal(),
    {
        match self {
            EvaluationWarning::InvalidPattern => false,
            EvaluationWarning::UnknownUnit => false,
            _ => true,
        }
    }
}

/// Whether an operator compares texts.
pub open spec fn is_text_operator(op: ComparisonOperator) -> bool {
    op == ComparisonOperator::Equal || op == ComparisonOperator::NotEqual || op
        == ComparisonOperator::Like || op == ComparisonOperator::Contains
}

/// Whether an operator compares magnitudes.
pub open spec fn is_order_operator(op: ComparisonOperator) -> bool {
    op != ComparisonOperator::Like && op != ComparisonOperator::Contains
}

/// Whether an operator tests for equality.
pub open spec fn is_equality_operator(op: ComparisonOperator) -> bool {
    op == ComparisonOperator::Equal || op == ComparisonOperator::NotEqual
}

/// What is wrong with a comparison on a text field.
pub open spec fn text_warning(op: ComparisonOperator, value: ValueView) -> Option<
    EvaluationWarning,
> {
    match value {
        ValueView::String(s) => if !is_text_operator(op) {
            Some(EvaluationWarning::InvalidOperator)
        } else if op == ComparisonOperator::Like && regex_match(like_pattern(s), Seq::empty())
            is None {
            Some(EvaluationWarning::InvalidPattern)
        } else {
            None
        },
        _ => Some(EvaluationWarning::InvalidValue),
    }
}

/// What is wrong with a comparison on the size.
pub open spec fn size_warning(op: ComparisonOperator, value: ValueView) -> Option<
    EvaluationWarning,
> {
    match value {
        ValueView::Number(_) => if is_order_operator(op) {
            None
        } else {
            Some(EvaluationWarning::InvalidOperator)
        },
        ValueView::SizedNumber(_, unit) => if !is_order_operator(op) {
            Some(EvaluationWarning::InvalidOperator)
        } else if !unit_known(unit) {
            Some(EvaluationWarning::UnknownUnit)
        } else {
            None
        },
        _ => Some(EvaluationWarning::InvalidValue),
    }
}

/// Whether a unit is one of `b`, `kb`, `mb`, `gb`, `tb` once it is brought
/// to lower case.
pub open spec fn unit_known(unit: Seq<char>) -> bool {
    let lower = lower_case(unit);
    lower == "b"@ || lower == "kb"@ || lower == "mb"@ || lower == "gb"@ || lower == "tb"@
}

/// What is wrong with a comparison on a date.
pub open spec fn date_warning(op: ComparisonOperator, value: ValueView) -> Option<
    EvaluationWarning,
> {
    match value {
        ValueView::String(s) => if crate::filter::midnight_of(s) is None {
            Some(EvaluationWarning::InvalidDate)
        } else if !is_order_operator(op) {
            Some(EvaluationWarning::InvalidOperator)
        } else {
            None
        },
        _ => Some(EvaluationWarning::InvalidValue),
    }
}

/// What is wrong with a comparison on a flag.
pub open spec fn flag_warning(op: ComparisonOperator, value: ValueView) -> Option<
    EvaluationWarning,
> {
    match value {
        ValueView::Bool(_) => if is_equality_operator(op) {
            None
        } else {
            Some(EvaluationWarning::InvalidOperator)
        },
        _ => Some(EvaluationWarning::InvalidValue),
    }
}

/// What is wrong with a comparison, if anything.
pub open spec fn warning_of(c: ConditionView) -> Option<EvaluationWarning> {
    match field_named(c.identifier) {
        Some(Field::Name) => text_warning(c.operator, c.value),
        Some(Field::Path) => text_warning(c.operator, c.value),
        Some(Field::Extension) => text_warning(c.operator, c.value),
        Some(Field::Permissions) => text_warning(c.operator, c.value),
        Some(Field::Size) => size_warning(c.operator, c.value),
        Some(Field::Modified) => date_warning(c.operator, c.value),
        Some(Field::Created) => date_warning(c.operator, c.value),
        Some(Field::IsHidden) => flag_warning(c.operator, c.value),
        Some(Field::IsReadonly) => flag_warning(c.operator, c.value),
        Some(Field::Kind) => text_warning(c.operator, c.value),
        None => Some(EvaluationWarning::UnknownField),
    }
}

/// A comparison with a fatal warning matches no entry.
pub proof fn lemma_fatal_warning_matches_nothing(e: EntryView, c: ConditionView)
    requires
        warning_of(c) matches Some(w) && w.is_fatal(),
    ensures
        !leaf_matches(e, c),
{
}

/// The warnings of a condition tree, from left to right.
pub open spec fn warnings_of(n: ConditionNodeView) -> Seq<EvaluationWarning>
    decreases n,
{
    match n {
        ConditionNodeView::Leaf(c) => match warning_of(c) {
            Some(w) => seq![w],
            None => Seq::empty(),
        },
        ConditionNodeView::Branch { left, operator, right } => warnings_of(*left) + warnings_of(
            *right,
        ),
    }
}

/// Whether an operator compares texts.
pub fn compares_text(op: &ComparisonOperator) -> (r: bool)
    ensures
        r == is_text_operator(*op),
{
    match op {
        ComparisonOperator::Equal => true,
        ComparisonOperator::NotEqual => true,
        ComparisonOperator::Like => true,
        ComparisonOperator::Contains => true,
        _ => false,
    }
}

/// Whether an operator compares magnitudes.
pub fn compares_order(op: &ComparisonOperator) -> (r: bool)
    ensures
        r == is_order_operator(*op),
{
    match op {
        ComparisonOperator::Like => false,
        ComparisonOperator::Contains => false,
        _ => true,
    }
}

/// Whether an operator tests for equality.
pub fn compares_equality(op: &ComparisonOperator) -> (r: bool)
    ensures
        r == is_equality_operator(*op),
{
    match op {
        ComparisonOperator::Equal => true,
        ComparisonOperator::NotEqual => true,
        _ => false,
    }
}

/// What is wrong with a comparison, if anything.
pub fn check_condition(c: &Condition) -> (r: Option<EvaluationWarning>)
    ensures
        r == warning_of(c@),
{
    let field = match lookup_field(c.identifier.as_str()) {
        Some(field) => field,
        None => {
            return Some(EvaluationWarning::UnknownField);
        },
    };
    match field {
        Field::Name | Field::Path | Field::Extension | Field::Permissions | Field::Kind => match &c.value {
            Value::String(s) => {
                if !compares_text(&c.operator) {
                    Some(EvaluationWarning::InvalidOperator)
                } else if is_like(&c.operator) && !regex_is_valid(
                    wildcard_to_regex(s.as_str()).as_str(),
                ) {
                    Some(EvaluationWarning::InvalidPattern)
                } else {
                    None
                }
            },
            _ => Some(EvaluationWarning::InvalidValue),
        },
        Field::Size => match &c.value {
            Value::Number(_) => if compares_order(&c.operator) {
                None
            } else {
                Some(EvaluationWarning::InvalidOperator)
            },
            Value::SizedNumber(_, unit) => if !compares_order(&c.operator) {
                Some(EvaluationWarning::InvalidOperator)
            } else if !unit_is_known(unit.as_str()) {
                Some(EvaluationWarning::UnknownUnit)
            } else {
                None
            },
            _ => Some(EvaluationWarning::InvalidValue),
        },
        Field::Modified | Field::Created => match &c.value {
            Value::String(s) => if parse_midnight(s.as_str()).is_none() {
                Some(EvaluationWarning::InvalidDate)
            } else if !compares_order(&c.operator) {
                Some(EvaluationWarning::InvalidOperator)
            } else {
                None
            },
            _ => Some(EvaluationWarning::InvalidValue),
        },
        Field::IsHidden | Field::IsReadonly => match &c.value {
            Value::Bool(_) => if compares_equality(&c.operator) {
                None
            } else {
                Some(EvaluationWarning::InvalidOperator)
            },
            _ => Some(EvaluationWarning::InvalidValue),
        },
    }
}

/// Whether an operator is `LIKE`.
fn is_like(op: &ComparisonOperator) -> (r: bool)
    ensures
        r == (*op == ComparisonOperator::Like),
{
    match op {
        ComparisonOperator::Like => true,
        _ => false,
    }
}

/// Adds the warnings of a condition tree, from left to right, to `out`.
fn collect_warnings(node: &ConditionNode, out: &mut Vec<EvaluationWarning>)
    ensures
        final(out)@ == old(out)@ + warnings_of(node@),
    decreases node,
{
    match node {
        ConditionNode::Leaf(c) => {
            match check_condition(c) {
                Some(w) => {
                    out.push(w);
                    assert(out@ =~= old(out)@ + seq![w]);
                },
                None => {
                    assert(out@ =~= old(out)@ + Seq::<EvaluationWarning>::empty());
                },
            }
        },
        ConditionNode::Branch { left, operator, right } => {
            collect_warnings(left, out);
            let ghost middle = out@;
            collect_warnings(right, out);
            assert(out@ =~= old(out)@ + (warnings_of((**left)@) + warnings_of((**right)@)));
        },
    }
}

/// The warnings of a condition tree, from left to right.
pub fn condition_warnings(node: &ConditionNode) -> (r: Vec<EvaluationWarning>)
    ensures
        r@ == warnings_of(node@),
{
    let mut out: Vec<EvaluationWarning> = Vec::new();
    collect_warnings(node, &mut out);
    assert(out@ =~= warnings_of(node@));
    out
}

} // verus!
