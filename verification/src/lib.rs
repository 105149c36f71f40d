//! A SQL-like query language over filesystem entries: the parser that turns
//! query text into a typed tree, the evaluator that applies a condition tree
//! to an entry, and the engine that filters, sorts and limits a listing and
//! steers a deletion batch.
//!
//! The library reads no disk. A listing is handed to it as values, and what
//! is to be removed is handed back as decisions.

pub mod commands;
pub mod decimal;
pub mod deletion;
pub mod diagnosis;
pub mod display;
pub mod engine;
pub mod entry;
pub mod filter;
pub mod order;
pub mod parser;
pub mod shell;
pub mod statements;
pub mod text;
pub mod theme;
pub mod tokenizer;
pub mod types;

pub use crate::commands::{LSQLCommand, Parser};
pub use crate::decimal::{Comparison, Decimal};
pub use crate::deletion::{DeletionBatch, RemovalAction, RemovalFailure};
pub use crate::diagnosis::{check_condition, condition_warnings, EvaluationWarning};
pub use crate::engine::{
    apply_limit, execute_query, filter_entries, includes, list_entries, normalize_path,
    select_entries, PathError, SearchContext,
};
pub use crate::entry::{FSEntry, FilePermission, FileType, Timestamp};
pub use crate::order::{compare_entries, sort_entries};
pub use crate::parser::query::{parse, parse_statements, LSQLParser};
pub use crate::parser::selection::parse_selection;
pub use crate::statements::{where_clause_to_enum, Command, ResultOrder, WhereClause, WhereType};
pub use crate::theme::{
    dark_theme, get_border_style, light_theme, minimal_theme, vibrant_theme, Theme, ThemeColors,
    ThemeManager, ThemeStyles,
};
pub use crate::tokenizer::{Location, Token, TokenType, Tokenizer};
pub use crate::types::{
    ComparisonOperator, Condition, ConditionNode, LogicalOperator, OrderDirection, OrderTerm,
    ParseError, ParseErrorKind, Query, QueryType, SelectionType, Value,
};
