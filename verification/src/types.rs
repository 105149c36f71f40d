//! The vocabulary of the query language: operators, literal values, the
//! condition tree and the parsed query, each with its mathematical view.

use crate::decimal::{Decimal, DecimalView};
use crate::text::{append_number, decimal_text};
use vstd::prelude::*;
use vstd::string::StringExecFns;

verus! {

/// Whether a query reads entries or removes them.
#[derive(Debug, Clone, Copy, PartialEq, Eq, Structural)]
pub enum QueryType {
    /// Select entries (read-only).
    Select,
    /// Delete entries.
    Delete,
}

/// What a query selects.
#[derive(Debug, Clone)]
pub enum SelectionType {
    /// Every entry, files and directories alike.
    All,
    /// Files only.
    Files,
    /// Directories only.
    Directories,
    /// Every entry, projected on the named fields.
    Fields(Vec<String>),
}

/// The view of a [`SelectionType`].
pub enum SelectionView {
    All,
    Files,
    Directories,
    Fields(Seq<Seq<char>>),
}

/// The texts held by a sequence of strings.
pub open spec fn texts_of(names: Seq<String>) -> Seq<Seq<char>> {
    names.map_values(|name: String| name@)
}

impl View for SelectionType {
    type V = SelectionView;

    open spec fn view(&self) -> SelectionView {
        match self {
            SelectionType::All => SelectionView::All,
            SelectionType::Files => SelectionView::Files,
            SelectionType::Directories => SelectionView::Directories,
            SelectionType::Fields(names) => SelectionView::Fields(texts_of(names@)),
        }
    }
}

/// A comparison in a `WHERE` clause.
#[derive(Debug, Clone, Copy, PartialEq, Eq, Structural)]
pub enum ComparisonOperator {
    /// `=`
    Equal,
    /// `!=`
    NotEqual,
    /// `<`
    LessThan,
    /// `<=`
    LessOrEqual,
    /// `>`
    GreaterThan,
    /// `>=`
    GreaterOrEqual,
    /// `LIKE`: wildcard pattern matching.
    Like,
    /// `CONTAINS`: substring matching.
    Contains,
}

/// A literal on the right-hand side of a comparison.
#[derive(Debug)]
pub enum Value {
    /// A quoted string.
    String(String),
    /// A number.
    Number(Decimal),
    /// A number with a unit suffix, such as `10mb`.
    SizedNumber(Decimal, String),
    /// `true` or `false`.
    Bool(bool),
}

/// The view of a [`Value`].
pub enum ValueView {
    String(Seq<char>),
    Number(DecimalView),
    SizedNumber(DecimalView, Seq<char>),
    Bool(bool),
}

impl View for Value {
    type V = ValueView;

    open spec fn view(&self) -> ValueView {
        match self {
            Value::String(s) => ValueView::String(s@),
            Value::Number(n) => ValueView::Number(n@),
            Value::SizedNumber(n, unit) => ValueView::SizedNumber(n@, unit@),
            Value::Bool(b) => ValueView::Bool(*b),
        }
    }
}

impl Clone for Value {
    fn clone(&self) -> (r: Self)
        ensures
            r@ == self@,
    {
        match self {
            Value::String(s) => Value::String(s.clone()),
            Value::Number(n) => Value::Number(n.clone()),
            Value::SizedNumber(n, unit) => Value::SizedNumber(n.clone(), unit.clone()),
            Value::Bool(b) => Value::Bool(*b),
        }
    }
}

/// One comparison: a field, an operator and a literal.
#[derive(Debug)]
pub struct Condition {
    /// The field that is compared.
    pub identifier: String,
    /// The comparison operator.
    pub operator: ComparisonOperator,
    /// The literal it is compared with.
    pub value: Value,
}

/// The view of a [`Condition`].
pub struct ConditionView {
    pub identifier: Seq<char>,
    pub operator: ComparisonOperator,
    pub value: ValueView,
}

impl View for Condition {
    type V = ConditionView;

    open spec fn view(&self) -> ConditionView {
        ConditionView {
            identifier: self.identifier@,
            operator: self.operator,
            value: self.value@,
        }
    }
}

impl Clone for Condition {
    fn clone(&self) -> (r: Self)
        ensures
            r@ == self@,
    {
        Condition {
            identifier: self.identifier.clone(),
            operator: self.operator,
            value: self.value.clone(),
        }
    }
}

/// How two conditions combine.
#[derive(Debug, Clone, Copy, PartialEq, Eq, Structural)]
pub enum LogicalOperator {
    /// Both hold.
    And,
    /// At least one holds.
    Or,
}

/// A condition tree. Each node owns its children.
#[derive(Debug)]
pub enum ConditionNode {
    /// A single comparison.
    Leaf(Condition),
    /// Two subtrees joined by a logical operator.
    Branch { left: Box<ConditionNode>, operator: LogicalOperator, right: Box<ConditionNode> },
}

/// The view of a [`ConditionNode`].
pub enum ConditionNodeView {
    Leaf(ConditionView),
    Branch {
        left: Box<ConditionNodeView>,
        operator: LogicalOperator,
        right: Box<ConditionNodeView>,
    },
}

impl View for ConditionNode {
    type V = ConditionNodeView;

    open spec fn view(&self) -> ConditionNodeView
        decreases self,
    {
        match self {
            ConditionNode::Leaf(c) => ConditionNodeView::Leaf(c@),
            ConditionNode::Branch { left, operator, right } => ConditionNodeView::Branch {
                left: Box::new((**left)@),
                operator: *operator,
                right: Box::new((**right)@),
            },
        }
    }
}

impl Clone for ConditionNode {
    fn clone(&self) -> (r: Self)
        ensures
            r@ == self@,
        decreases self,
    {
        match self {
            ConditionNode::Leaf(c) => ConditionNode::Leaf(c.clone()),
            ConditionNode::Branch { left, operator, right } => {
                let l = (**left).clone();
                let r = (**right).clone();
                ConditionNode::Branch { left: Box::new(l), operator: *operator, right: Box::new(r) }
            },
        }
    }
}

/// The direction of one sort key.
#[derive(Debug, Clone, Copy, PartialEq, Eq, Structural)]
pub enum OrderDirection {
    Ascending,
    Descending,
}

/// One key of an `ORDER BY` clause.
#[derive(Debug, Clone)]
pub struct OrderTerm {
    /// The field to sort by.
    pub field: String,
    /// Ascending or descending.
    pub direction: OrderDirection,
}

/// The view of an [`OrderTerm`].
pub struct OrderTermView {
    pub field: Seq<char>,
    pub direction: OrderDirection,
}

impl View for OrderTerm {
    type V = OrderTermView;

    open spec fn view(&self) -> OrderTermView {
        OrderTermView { field: self.field@, direction: self.direction }
    }
}

/// The views of a sequence of order terms.
pub open spec fn terms_of(terms: Seq<OrderTerm>) -> Seq<OrderTermView> {
    terms.map_values(|term: OrderTerm| term@)
}

/// A parsed query.
#[derive(Debug, Clone)]
pub struct Query {
    /// `SELECT` or `DELETE`.
    pub query_type: QueryType,
    /// What to select.
    pub selection: SelectionType,
    /// The path to search in.
    pub path: String,
    /// The `WHERE` condition, if any.
    pub condition: Option<ConditionNode>,
    /// The greatest number of results, if limited.
    pub limit: Option<u64>,
    /// Whether `limit` is the default taken because the number of the
    /// `LIMIT` clause could not be read.
    pub limit_defaulted: bool,
    /// Whether a `DELETE` may remove directories with their contents.
    pub is_recursive: bool,
    /// The sort keys, most significant first.
    pub order_by: Vec<OrderTerm>,
}

/// The view of a [`Query`].
pub struct QueryView {
    pub query_type: QueryType,
    pub selection: SelectionView,
    pub path: Seq<char>,
    pub condition: Option<ConditionNodeView>,
    pub limit: Option<u64>,
    pub limit_defaulted: bool,
    pub is_recursive: bool,
    pub order_by: Seq<OrderTermView>,
}

/// The view of an optional condition tree.
pub open spec fn condition_view(condition: Option<ConditionNode>) -> Option<ConditionNodeView> {
    match condition {
        Some(node) => Some(node@),
        None => None,
    }
}

impl View for Query {
    type V = QueryView;

    open spec fn view(&self) -> QueryView {
        QueryView {
            query_type: self.query_type,
            selection: self.selection@,
            path: self.path@,
            condition: condition_view(self.condition),
            limit: self.limit,
            limit_defaulted: self.limit_defaulted,
            is_recursive: self.is_recursive,
            order_by: terms_of(self.order_by@),
        }
    }
}

/// What the parser found wrong.
#[derive(Debug, Clone, Copy, PartialEq, Eq, Structural)]
pub enum ParseErrorKind {
    /// The text starts with neither `SELECT` nor `DELETE`.
    ExpectedStatement,
    /// Neither `*` nor a field name where a selection must stand.
    ExpectedSelection,
    /// No field name after a comma.
    ExpectedField,
    /// The `FROM` clause is missing.
    ExpectedFrom,
    /// No path after `FROM`.
    ExpectedPath,
    /// A quoted string is not closed.
    UnterminatedString,
    /// No field name where a comparison must start.
    ExpectedIdentifier,
    /// The text after a field name is not a comparison operator.
    ExpectedOperator,
    /// The text after an operator is no string, number, `true` or `false`.
    ExpectedValue,
    /// A parenthesis is not closed.
    ExpectedClosingParen,
    /// `ORDER` is not followed by `BY`.
    ExpectedBy,
    /// No number after `LIMIT`.
    ExpectedNumber,
    /// Text remains after the end of the statement.
    TrailingInput,
}

/// A rejected query: what was expected, and the position (counted in
/// characters) at which it was missing.
#[derive(Debug, Clone, Copy, PartialEq, Eq, Structural)]
pub struct ParseError {
    pub position: usize,
    pub kind: ParseErrorKind,
}

/// What the parser expected, in words.
pub open spec fn kind_text(kind: ParseErrorKind) -> Seq<char> {
    match kind {
        ParseErrorKind::ExpectedStatement => "expected SELECT or DELETE"@,
        ParseErrorKind::ExpectedSelection => "expected * or a field name"@,
        ParseErrorKind::ExpectedField => "expected a field name"@,
        ParseErrorKind::ExpectedFrom => "expected FROM"@,
        ParseErrorKind::ExpectedPath => "expected a path"@,
        ParseErrorKind::UnterminatedString => "unterminated string"@,
        ParseErrorKind::ExpectedIdentifier => "expected a field name to compare"@,
        ParseErrorKind::ExpectedOperator => "expected a comparison operator"@,
        ParseErrorKind::ExpectedValue => "expected a string, a number, true or false"@,
        ParseErrorKind::ExpectedClosingParen => "expected )"@,
        ParseErrorKind::ExpectedBy => "expected BY"@,
        ParseErrorKind::ExpectedNumber => "expected a number"@,
        ParseErrorKind::TrailingInput => "unexpected text after the statement"@,
    }
}

/// The message of an error: what was expected and where.
pub open spec fn error_text(e: ParseError) -> Seq<char> {
    "Parse error: "@ + kind_text(e.kind) + " at position "@ + decimal_text(e.position as nat)
}

impl ParseErrorKind {
    /// What the parser expected, in words.
    pub fn describe(&self) -> (r: &'static str)
        ensures
            r@ == kind_text(*self),
    {
        match self {
            ParseErrorKind::ExpectedStatement => "expected SELECT or DELETE",
            ParseErrorKind::ExpectedSelection => "expected * or a field name",
            ParseErrorKind::ExpectedField => "expected a field name",
            ParseErrorKind::ExpectedFrom => "expected FROM",
            ParseErrorKind::ExpectedPath => "expected a path",
            ParseErrorKind::UnterminatedString => "unterminated string",
            ParseErrorKind::ExpectedIdentifier => "expected a field name to compare",
            ParseErrorKind::ExpectedOperator => "expected a comparison operator",
            ParseErrorKind::ExpectedValue => "expected a string, a number, true or false",
            ParseErrorKind::ExpectedClosingParen => "expected )",
            ParseErrorKind::ExpectedBy => "expected BY",
            ParseErrorKind::ExpectedNumber => "expected a number",
            ParseErrorKind::TrailingInput => "unexpected text after the statement",
        }
    }
}

impl ParseError {
    /// The message of the error: what was expected and where.
    pub fn message(&self) -> (r: String)
        ensures
            r@ == error_text(*self),
    {
        let mut out = String::from_str("Parse error: ");
        out.append(self.kind.describe());
        out.append(" at position ");
        append_number(&mut out, self.position as u64);
        out
    }
}

} // verus!
