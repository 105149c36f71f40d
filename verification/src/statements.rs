//! The statements of the shell: `SELECT`, `CD`, `SHOW` and `EXISTS`,
//! several of them separated by `;`.
//!
//! The grammar is an ordered-choice grammar: a rule either reads from a
//! position or fails there, an optional part that fails is passed over, and
//! a list ends before the first separator that no element follows. What
//! cannot be read is left as the rest of the text.

use crate::decimal::digits_value;
use crate::parser::source::Source;
use crate::parser::value::digits_of;
use crate::text::{is_digit, same_ignoring_case, skip_spaces, str_equal};
use crate::tokenizer::{is_numeric, numeric};
use crate::types::texts_of;
use vstd::prelude::*;
use vstd::string::StringExecFns;

verus! {

/// One comparison of a `WHERE` clause: a column and a value, by operator.
#[derive(Debug, PartialEq)]
pub enum WhereClause {
    Equal(String, String),
    NotEqual(String, String),
    LessThan(String, String),
    LessThanOrEqual(String, String),
    GreaterThan(String, String),
    GreaterThanOrEqual(String, String),
    UnknownOperator(String, String),
}

/// The view of a [`WhereClause`].
pub enum WhereClauseView {
    Equal(Seq<char>, Seq<char>),
    NotEqual(Seq<char>, Seq<char>),
    LessThan(Seq<char>, Seq<char>),
    LessThanOrEqual(Seq<char>, Seq<char>),
    GreaterThan(Seq<char>, Seq<char>),
    GreaterThanOrEqual(Seq<char>, Seq<char>),
    UnknownOperator(Seq<char>, Seq<char>),
}

impl View for WhereClause {
    type V = WhereClauseView;

    open spec fn view(&self) -> WhereClauseView {
        match self {
            WhereClause::Equal(c, v) => WhereClauseView::Equal(c@, v@),
            WhereClause::NotEqual(c, v) => WhereClauseView::NotEqual(c@, v@),
            WhereClause::LessThan(c, v) => WhereClauseView::LessThan(c@, v@),
            WhereClause::LessThanOrEqual(c, v) => WhereClauseView::LessThanOrEqual(c@, v@),
            WhereClause::GreaterThan(c, v) => WhereClauseView::GreaterThan(c@, v@),
            WhereClause::GreaterThanOrEqual(c, v) => WhereClauseView::GreaterThanOrEqual(c@, v@),
            WhereClause::UnknownOperator(c, v) => WhereClauseView::UnknownOperator(c@, v@),
        }
    }
}

/// The direction of the results of a `SELECT`.
#[derive(Debug, Clone, Copy, PartialEq, Eq, Structural)]
pub enum ResultOrder {
    Ascending,
    Descending,
}

/// The comparisons of a `WHERE` clause as they stand in the text: column,
/// operator and value.
#[derive(Debug, PartialEq)]
pub enum WhereType<'a> {
    Conditions(Vec<(&'a str, &'a str, &'a str)>),
}

/// A statement of the shell.
#[derive(Debug, PartialEq)]
#[allow(inconsistent_fields)]
pub enum Command {
    Select {
        props: Vec<String>,
        where_clause: Option<Vec<WhereClause>>,
        order_by: Option<Vec<String>>,
        limit: Option<usize>,
        from_path: Option<String>,
        ordering: Option<ResultOrder>,
    },
    ChangeDir { path: String },
    DeleteFiles { first: bool, where_clause: Vec<WhereClause> },
    Exists { where_clause: Vec<WhereClause> },
    Show,
}

/// The views of a sequence of comparisons.
pub open spec fn clauses_of(clauses: Seq<WhereClause>) -> Seq<WhereClauseView> {
    clauses.map_values(|c: WhereClause| c@)
}

/// The views of an optional sequence of comparisons.
pub open spec fn optional_clauses(clauses: Option<Vec<WhereClause>>) -> Option<
    Seq<WhereClauseView>,
> {
    match clauses {
        Some(list) => Some(clauses_of(list@)),
        None => None,
    }
}

/// The texts of an optional sequence of strings.
pub open spec fn optional_texts(names: Option<Vec<String>>) -> Option<Seq<Seq<char>>> {
    match names {
        Some(list) => Some(texts_of(list@)),
        None => None,
    }
}

/// The view of a [`Command`].
#[allow(inconsistent_fields)]
pub enum CommandView {
    Select {
        props: Seq<Seq<char>>,
        where_clause: Option<Seq<WhereClauseView>>,
        order_by: Option<Seq<Seq<char>>>,
        limit: Option<usize>,
        from_path: Option<Seq<char>>,
        ordering: Option<ResultOrder>,
    },
    ChangeDir { path: Seq<char> },
    DeleteFiles { first: bool, where_clause: Seq<WhereClauseView> },
    Exists { where_clause: Seq<WhereClauseView> },
    Show,
}

impl View for Command {
    type V = CommandView;

    open spec fn view(&self) -> CommandView {
        match self {
            Command::Select { props, where_clause, order_by, limit, from_path, ordering } => {
                CommandView::Select {
                    props: texts_of(props@),
                    where_clause: optional_clauses(*where_clause),
                    order_by: optional_texts(*order_by),
                    limit: *limit,
                    from_path: crate::entry::optional_text(*from_path),
                    ordering: *ordering,
                }
            },
            Command::ChangeDir { path } => CommandView::ChangeDir { path: path@ },
            Command::DeleteFiles { first, where_clause } => CommandView::DeleteFiles {
                first: *first,
                where_clause: clauses_of(where_clause@),
            },
            Command::Exists { where_clause } => CommandView::Exists {
                where_clause: clauses_of(where_clause@),
            },
            Command::Show => CommandView::Show,
        }
    }
}

/// The views of a sequence of commands.
pub open spec fn commands_view(commands: Seq<Command>) -> Seq<CommandView> {
    commands.map_values(|c: Command| c@)
}

/// Whether `char::is_alphanumeric` holds of `c`.
pub uninterp spec fn alphanumeric(c: char) -> bool;

/// `char::is_alphanumeric`.
#[verifier::external_body]
fn is_alphanumeric(c: char) -> (r: bool)
    ensures
        r == alphanumeric(c),
{
    c.is_alphanumeric()
}

/// The runs of characters the grammar reads.
#[derive(Debug, Clone, Copy, PartialEq, Eq, Structural)]
pub enum Run {
    /// Letters and digits of any script, and `_`.
    Name,
    /// Digits of any script.
    Number,
    /// What a name holds, and `/` and `.`.
    Path,
    /// Anything but a single quote.
    Quoted,
}

/// Whether `c` belongs to a run.
pub open spec fn run_has(run: Run, c: char) -> bool {
    match run {
        Run::Name => alphanumeric(c) || c == '_',
        Run::Number => numeric(c),
        Run::Path => alphanumeric(c) || c == '/' || c == '.' || c == '_',
        Run::Quoted => c != '\'',
    }
}

/// Where the run that starts at `pos` ends.
pub open spec fn run_end(s: Seq<char>, pos: int, run: Run) -> int
    decreases s.len() - pos,
{
    if 0 <= pos < s.len() && run_has(run, s[pos]) {
        run_end(s, pos + 1, run)
    } else {
        pos
    }
}

/// What a rule yields: a value and the position behind it, a failure, or
/// the discovery that the text holds a `LIMIT` whose number cannot be read.
pub enum Step<T> {
    Done(T, int),
    Fail,
    Broken,
}

/// The position behind `tag`, in any case of letters, at `pos`.
pub open spec fn tag_at(s: Seq<char>, pos: int, tag: Seq<char>) -> Option<int> {
    if 0 <= pos && pos + tag.len() <= s.len() && same_ignoring_case(
        s.subrange(pos, pos + tag.len()),
        tag,
    ) {
        Some(pos + tag.len())
    } else {
        None
    }
}

/// The position behind `tag` and the white space around it, from `pos`.
pub open spec fn spaced_tag(s: Seq<char>, pos: int, tag: Seq<char>) -> Option<int> {
    match tag_at(s, skip_spaces(s, pos), tag) {
        Some(end) => Some(skip_spaces(s, end)),
        None => None,
    }
}

/// The position behind the character `c` and the white space around it.
pub open spec fn spaced_char(s: Seq<char>, pos: int, c: char) -> Option<int> {
    let start = skip_spaces(s, pos);
    if 0 <= start < s.len() && s[start] == c {
        Some(skip_spaces(s, start + 1))
    } else {
        None
    }
}

/// The rule for a name, with the white space around it: a run of at least
/// one name character.
pub open spec fn spaced_name(s: Seq<char>, pos: int) -> Option<(Seq<char>, int)> {
    let start = skip_spaces(s, pos);
    let end = run_end(s, start, Run::Name);
    if 0 <= start < end <= s.len() {
        Some((s.subrange(start, end), skip_spaces(s, end)))
    } else {
        None
    }
}

/// The rule `"*" | name`, with the white space around it.
pub open spec fn spaced_column(s: Seq<char>, pos: int) -> Option<(Seq<char>, int)> {
    let start = skip_spaces(s, pos);
    if 0 <= start < s.len() && s[start] == '*' {
        Some((s.subrange(start, start + 1), skip_spaces(s, start + 1)))
    } else {
        spaced_name(s, pos)
    }
}

/// The rule `("," column)*` from `pos`, the columns added to `acc`. The
/// list ends before a comma that no column follows.
///
/// A column that is read ends behind its comma; the test on `next` lets
/// the definition show that it is well founded.
pub open spec fn more_columns(s: Seq<char>, pos: int, acc: Seq<Seq<char>>) -> (Seq<Seq<char>>, int)
    decreases s.len() - pos,
{
    match spaced_char(s, pos, ',') {
        None => (acc, pos),
        Some(after) => match spaced_column(s, after) {
            None => (acc, pos),
            Some((column, next)) => if pos < next <= s.len() {
                more_columns(s, next, acc.push(column))
            } else {
                (acc, pos)
            },
        },
    }
}

/// The rule `[column ("," column)*]` from `pos`. It never fails: without
/// a first column the list is empty.
pub open spec fn column_list(s: Seq<char>, pos: int) -> (Seq<Seq<char>>, int) {
    match spaced_column(s, pos) {
        None => (Seq::empty(), pos),
        Some((column, next)) => more_columns(s, next, seq![column]),
    }
}

/// The rule for an operator: the first of `=`, `<>`, `!=`, `<`, `>` that
/// stands at the position behind the white space.
pub open spec fn spaced_operator(s: Seq<char>, pos: int) -> Option<(Seq<char>, int)> {
    let start = skip_spaces(s, pos);
    if !(0 <= start < s.len()) {
        None
    } else if s[start] == '=' {
        Some((s.subrange(start, start + 1), skip_spaces(s, start + 1)))
    } else if s[start] == '<' && start + 1 < s.len() && s[start + 1] == '>' {
        Some((s.subrange(start, start + 2), skip_spaces(s, start + 2)))
    } else if s[start] == '!' && start + 1 < s.len() && s[start + 1] == '=' {
        Some((s.subrange(start, start + 2), skip_spaces(s, start + 2)))
    } else if s[start] == '<' || s[start] == '>' {
        Some((s.subrange(start, start + 1), skip_spaces(s, start + 1)))
    } else {
        None
    }
}

/// The rule for a value: a text of at least one character between single
/// quotes.
pub open spec fn spaced_literal(s: Seq<char>, pos: int) -> Option<(Seq<char>, int)> {
    let start = skip_spaces(s, pos);
    if 0 <= start < s.len() && s[start] == '\'' {
        let end = run_end(s, start + 1, Run::Quoted);
        if start + 1 < end < s.len() {
            Some((s.subrange(start + 1, end), skip_spaces(s, end + 1)))
        } else {
            None
        }
    } else {
        None
    }
}

/// A comparison as it stands in the text.
pub struct Triple {
    pub column: Seq<char>,
    pub operator: Seq<char>,
    pub value: Seq<char>,
}

/// The rule `name operator literal`.
pub open spec fn spaced_comparison(s: Seq<char>, pos: int) -> Option<(Triple, int)> {
    match spaced_name(s, pos) {
        None => None,
        Some((column, at_operator)) => match spaced_operator(s, at_operator) {
            None => None,
            Some((operator, at_value)) => match spaced_literal(s, at_value) {
                None => None,
                Some((value, end)) => Some((Triple { column, operator, value }, end)),
            },
        },
    }
}

/// The rule `("AND" comparison)*` from `pos`, added to `acc`. As for the
/// columns, the test on `next` never fails.
pub open spec fn more_comparisons(s: Seq<char>, pos: int, acc: Seq<Triple>) -> (Seq<Triple>, int)
    decreases s.len() - pos,
{
    match spaced_tag(s, pos, "AND"@) {
        None => (acc, pos),
        Some(after) => match spaced_comparison(s, after) {
            None => (acc, pos),
            Some((triple, next)) => if pos < next <= s.len() {
                more_comparisons(s, next, acc.push(triple))
            } else {
                (acc, pos)
            },
        },
    }
}

/// The rule `[comparison ("AND" comparison)*]`. It never fails.
pub open spec fn where_list(s: Seq<char>, pos: int) -> (Seq<Triple>, int) {
    match spaced_comparison(s, pos) {
        None => (Seq::empty(), pos),
        Some((triple, next)) => more_comparisons(s, next, seq![triple]),
    }
}

/// The comparison that a column, an operator and a value make.
pub open spec fn clause_of(t: Triple) -> WhereClauseView {
    if t.operator == "="@ {
        WhereClauseView::Equal(t.column, t.value)
    } else if t.operator == "<>"@ || t.operator == "!="@ {
        WhereClauseView::NotEqual(t.column, t.value)
    } else if t.operator == "<"@ {
        WhereClauseView::LessThan(t.column, t.value)
    } else if t.operator == "<="@ {
        WhereClauseView::LessThanOrEqual(t.column, t.value)
    } else if t.operator == ">"@ {
        WhereClauseView::GreaterThan(t.column, t.value)
    } else if t.operator == ">="@ {
        WhereClauseView::GreaterThanOrEqual(t.column, t.value)
    } else {
        WhereClauseView::UnknownOperator(t.column, t.value)
    }
}

/// The comparisons that a list of triples makes.
pub open spec fn clauses_from(list: Seq<Triple>) -> Seq<WhereClauseView> {
    list.map_values(|t: Triple| clause_of(t))
}

/// The number that a run of digits writes, if they are the digits `0` to
/// `9` and the number is not above `usize::MAX`.
pub open spec fn limit_number(text: Seq<char>) -> Option<usize> {
    if (forall|i: int| 0 <= i < text.len() ==> is_digit(#[trigger] text[i])) && digits_value(
        digits_of(text),
    ) <= usize::MAX {
        Some(digits_value(digits_of(text)) as usize)
    } else {
        None
    }
}

/// The rule `"LIMIT" digits`: it fails without the keyword or without a
/// digit, and is broken by digits that give no number.
pub open spec fn limit_statement(s: Seq<char>, pos: int) -> Step<usize> {
    match spaced_tag(s, pos, "LIMIT"@) {
        None => Step::Fail,
        Some(after) => {
            let start = skip_spaces(s, after);
            let end = run_end(s, start, Run::Number);
            if 0 <= start < end <= s.len() {
                match limit_number(s.subrange(start, end)) {
                    Some(n) => Step::Done(n, skip_spaces(s, end)),
                    None => Step::Broken,
                }
            } else {
                Step::Fail
            }
        },
    }
}

/// The rule for a path: a run of path characters, which may be empty, with
/// the white space around it.
pub open spec fn spaced_path(s: Seq<char>, pos: int) -> (Seq<char>, int) {
    let start = skip_spaces(s, pos);
    let end = run_end(s, start, Run::Path);
    if 0 <= start <= end <= s.len() {
        (s.subrange(start, end), skip_spaces(s, end))
    } else {
        (Seq::empty(), pos)
    }
}

/// The rule `"ASC" | "DESC"`.
pub open spec fn ordering_clause(s: Seq<char>, pos: int) -> Option<(ResultOrder, int)> {
    match spaced_tag(s, pos, "ASC"@) {
        Some(end) => Some((ResultOrder::Ascending, end)),
        None => match spaced_tag(s, pos, "DESC"@) {
            Some(end) => Some((ResultOrder::Descending, end)),
            None => None,
        },
    }
}

/// The rule `["WHERE" where_list]`.
pub open spec fn optional_where(s: Seq<char>, pos: int) -> (Option<Seq<Triple>>, int) {
    match spaced_tag(s, pos, "WHERE"@) {
        Some(after) => (Some(where_list(s, after).0), where_list(s, after).1),
        None => (None, pos),
    }
}

/// The rule `["ORDER" "BY" column_list]`. `ORDER` without `BY` is not
/// read at all.
pub open spec fn optional_order(s: Seq<char>, pos: int) -> (Option<Seq<Seq<char>>>, int) {
    match spaced_tag(s, pos, "ORDER"@) {
        Some(after) => match spaced_tag(s, after, "BY"@) {
            Some(at_list) => (Some(column_list(s, at_list).0), column_list(s, at_list).1),
            None => (None, pos),
        },
        None => (None, pos),
    }
}

/// The rule `["FROM" path]`.
pub open spec fn optional_from(s: Seq<char>, pos: int) -> (Option<Seq<char>>, int) {
    match spaced_tag(s, pos, "FROM"@) {
        Some(after) => (Some(spaced_path(s, after).0), spaced_path(s, after).1),
        None => (None, pos),
    }
}

/// The rule `"SELECT" column_list [where] [order] [limit] [from]
/// [ordering]`, the clauses in this order.
pub open spec fn select_statement(s: Seq<char>, pos: int) -> Step<CommandView> {
    match spaced_tag(s, pos, "SELECT"@) {
        None => Step::Fail,
        Some(at_columns) => {
            let (props, at_where) = column_list(s, at_columns);
            let (conditions, at_order) = optional_where(s, at_where);
            let (order_by, at_limit) = optional_order(s, at_order);
            match limit_statement(s, at_limit) {
                Step::Broken => Step::Broken,
                found => {
                    let (limit, at_from) = match found {
                        Step::Done(n, next) => (Some(n), next),
                        _ => (None, at_limit),
                    };
                    let (from_path, at_ordering) = optional_from(s, at_from);
                    let (ordering, end) = match ordering_clause(s, at_ordering) {
                        Some((order, next)) => (Some(order), next),
                        None => (None, at_ordering),
                    };
                    Step::Done(
                        CommandView::Select {
                            props,
                            where_clause: match conditions {
                                Some(list) => Some(clauses_from(list)),
                                None => None,
                            },
                            order_by,
                            limit,
                            from_path,
                            ordering,
                        },
                        end,
                    )
                },
            }
        },
    }
}

/// The rule `("CD" | "CHANGEDIR") path`.
pub open spec fn cd_statement(s: Seq<char>, pos: int) -> Option<(CommandView, int)> {
    let after = match spaced_tag(s, pos, "CD"@) {
        Some(end) => Some(end),
        None => spaced_tag(s, pos, "CHANGEDIR"@),
    };
    match after {
        Some(at_path) => Some(
            (CommandView::ChangeDir { path: spaced_path(s, at_path).0 }, spaced_path(s, at_path).1),
        ),
        None => None,
    }
}

/// The rule `select | cd | "SHOW" | "EXISTS" where_list`, the first that
/// reads.
pub open spec fn command(s: Seq<char>, pos: int) -> Step<CommandView> {
    match select_statement(s, pos) {
        Step::Fail => match cd_statement(s, pos) {
            Some((c, end)) => Step::Done(c, end),
            None => match spaced_tag(s, pos, "SHOW"@) {
                Some(end) => Step::Done(CommandView::Show, end),
                None => match spaced_tag(s, pos, "EXISTS"@) {
                    Some(after) => Step::Done(
                        CommandView::Exists { where_clause: clauses_from(where_list(s, after).0) },
                        where_list(s, after).1,
                    ),
                    None => Step::Fail,
                },
            },
        },
        read => read,
    }
}

/// A command with the white space around it.
pub open spec fn spaced_command(s: Seq<char>, pos: int) -> Step<CommandView> {
    match command(s, skip_spaces(s, pos)) {
        Step::Done(c, end) => Step::Done(c, skip_spaces(s, end)),
        other => other,
    }
}

/// The rule `(";" command)*` from `pos`, added to `acc`. As for the
/// columns, the test on `next` never fails.
pub open spec fn more_commands(s: Seq<char>, pos: int, acc: Seq<CommandView>) -> Step<
    Seq<CommandView>,
>
    decreases s.len() - pos,
{
    match spaced_char(s, pos, ';') {
        None => Step::Done(acc, pos),
        Some(after) => match spaced_command(s, after) {
            Step::Fail => Step::Done(acc, pos),
            Step::Broken => Step::Broken,
            Step::Done(c, next) => if pos < next <= s.len() {
                more_commands(s, next, acc.push(c))
            } else {
                Step::Done(acc, pos)
            },
        },
    }
}

/// The rule `[command (";" command)*]` on a whole text: the commands read
/// and where reading stopped.
pub open spec fn commands(s: Seq<char>) -> Step<Seq<CommandView>> {
    match spaced_command(s, 0) {
        Step::Fail => Step::Done(Seq::empty(), 0),
        Step::Broken => Step::Broken,
        Step::Done(c, next) => more_commands(s, next, seq![c]),
    }
}

/// Whether a text can be read: no `LIMIT` in it has a number that cannot
/// be read.
pub open spec fn readable(s: Seq<char>) -> bool {
    !(commands(s) is Broken)
}

// ---------------------------------------------------------------------
// The executable rules. A rule returns `Ok(Some(..))` where it reads,
// `Ok(None)` where it fails, and `Err(Unreadable)` where the text is broken.
// ---------------------------------------------------------------------
/// The text holds a `LIMIT` whose number cannot be read.
#[derive(Debug, Clone, Copy, PartialEq, Eq, Structural)]
pub struct Unreadable;

/// Whether `c` belongs to a run.
fn char_in_run(run: Run, c: char) -> (r: bool)
    ensures
        r == run_has(run, c),
{
    match run {
        Run::Name => is_alphanumeric(c) || c == '_',
        Run::Number => is_numeric(c),
        Run::Path => is_alphanumeric(c) || c == '/' || c == '.' || c == '_',
        Run::Quoted => c != '\'',
    }
}

/// Runs over the characters of `run` that start at `pos`.
fn scan_run(src: &Source, pos: usize, run: Run) -> (end: usize)
    requires
        pos <= src@.len(),
    ensures
        end == run_end(src@, pos as int, run),
        pos <= end <= src@.len(),
{
    let n = src.len();
    let mut end: usize = pos;
    while end < n && char_in_run(run, src.at(end))
        invariant
            pos <= end <= n,
            n == src@.len(),
            run_end(src@, end as int, run) == run_end(src@, pos as int, run),
        decreases n - end,
    {
        end = end + 1;
    }
    end
}

/// Reads `tag`, in any case of letters, at `pos`.
fn read_tag(src: &Source, pos: usize, tag: &str) -> (r: Option<usize>)
    requires
        pos <= src@.len(),
    ensures
        match r {
            Some(end) => tag_at(src@, pos as int, tag@) == Some(end as int) && pos <= end
                <= src@.len(),
            None => tag_at(src@, pos as int, tag@) is None,
        },
{
    let n = src.len();
    let width = tag.unicode_len();
    if width > n - pos {
        return None;
    }
    if crate::text::range_spells(src.chars(), pos, pos + width, tag) {
        Some(pos + width)
    } else {
        None
    }
}

/// Reads `tag` and the white space around it.
fn read_spaced_tag(src: &Source, pos: usize, tag: &str) -> (r: Option<usize>)
    requires
        pos <= src@.len(),
    ensures
        match r {
            Some(end) => spaced_tag(src@, pos as int, tag@) == Some(end as int) && pos <= end
                <= src@.len(),
            None => spaced_tag(src@, pos as int, tag@) is None,
        },
{
    let start = src.skip_spaces(pos);
    match read_tag(src, start, tag) {
        Some(end) => Some(src.skip_spaces(end)),
        None => None,
    }
}

/// Reads the character `c` and the white space around it.
fn read_spaced_char(src: &Source, pos: usize, c: char) -> (r: Option<usize>)
    requires
        pos <= src@.len(),
    ensures
        match r {
            Some(end) => spaced_char(src@, pos as int, c) == Some(end as int) && pos < end
                <= src@.len(),
            None => spaced_char(src@, pos as int, c) is None,
        },
{
    let start = src.skip_spaces(pos);
    if src.symbol(start, c) {
        Some(src.skip_spaces(start + 1))
    } else {
        None
    }
}

/// A piece of the text: where it starts and where it ends.
#[derive(Debug, Clone, Copy, PartialEq, Eq, Structural)]
pub struct Span {
    pub start: usize,
    pub end: usize,
}

impl Span {
    /// The characters of the piece.
    pub open spec fn of(self, s: Seq<char>) -> Seq<char> {
        s.subrange(self.start as int, self.end as int)
    }

    /// Whether the piece lies within `s`.
    pub open spec fn within(self, s: Seq<char>) -> bool {
        self.start <= self.end <= s.len()
    }
}

/// Reads a name and the white space around it.
fn read_spaced_name(src: &Source, pos: usize) -> (r: Option<(Span, usize)>)
    requires
        pos <= src@.len(),
    ensures
        match r {
            Some((span, end)) => spaced_name(src@, pos as int) == Some((span.of(src@), end as int))
                && span.within(src@) && pos < end <= src@.len(),
            None => spaced_name(src@, pos as int) is None,
        },
{
    let start = src.skip_spaces(pos);
    let end = scan_run(src, start, Run::Name);
    if start < end {
        Some((Span { start, end }, src.skip_spaces(end)))
    } else {
        None
    }
}

/// Reads `*` or a name, and the white space around it.
fn read_spaced_column(src: &Source, pos: usize) -> (r: Option<(Span, usize)>)
    requires
        pos <= src@.len(),
    ensures
        match r {
            Some((span, end)) => spaced_column(src@, pos as int) == Some(
                (span.of(src@), end as int),
            ) && span.within(src@) && pos < end <= src@.len(),
            None => spaced_column(src@, pos as int) is None,
        },
{
    let start = src.skip_spaces(pos);
    if src.symbol(start, '*') {
        Some((Span { start, end: start + 1 }, src.skip_spaces(start + 1)))
    } else {
        read_spaced_name(src, pos)
    }
}

/// Reads a list of columns. It never fails.
fn read_column_list(src: &Source, pos: usize) -> (r: (Vec<String>, usize))
    requires
        pos <= src@.len(),
    ensures
        column_list(src@, pos as int) == (texts_of(r.0@), r.1 as int),
        pos <= r.1 <= src@.len(),
{
    let mut columns: Vec<String> = Vec::new();
    assert(texts_of(columns@) =~= Seq::<Seq<char>>::empty());
    let (first, next) = match read_spaced_column(src, pos) {
        Some(found) => found,
        None => {
            return (columns, pos);
        },
    };
    let name = src.slice(first.start, first.end);
    proof {
        assert(texts_of(columns@.push(name)) =~= seq![name@]);
    }
    columns.push(name);
    let mut cur: usize = next;
    loop
        invariant
            pos <= cur <= src@.len(),
            more_columns(src@, cur as int, texts_of(columns@)) == column_list(src@, pos as int),
        decreases src@.len() - cur,
    {
        let after = match read_spaced_char(src, cur, ',') {
            Some(after) => after,
            None => {
                return (columns, cur);
            },
        };
        let (span, next) = match read_spaced_column(src, after) {
            Some(found) => found,
            None => {
                return (columns, cur);
            },
        };
        let name = src.slice(span.start, span.end);
        proof {
            assert(texts_of(columns@.push(name)) =~= texts_of(columns@).push(name@));
        }
        columns.push(name);
        cur = next;
    }
}

/// Reads an operator and the white space around it.
fn read_spaced_operator(src: &Source, pos: usize) -> (r: Option<(Span, usize)>)
    requires
        pos <= src@.len(),
    ensures
        match r {
            Some((span, end)) => spaced_operator(src@, pos as int) == Some(
                (span.of(src@), end as int),
            ) && span.within(src@) && pos < end <= src@.len(),
            None => spaced_operator(src@, pos as int) is None,
        },
{
    let start = src.skip_spaces(pos);
    if start >= src.len() {
        return None;
    }
    let c = src.at(start);
    if c == '=' {
        Some((Span { start, end: start + 1 }, src.skip_spaces(start + 1)))
    } else if c == '<' && src.symbol(start + 1, '>') {
        Some((Span { start, end: start + 2 }, src.skip_spaces(start + 2)))
    } else if c == '!' && src.symbol(start + 1, '=') {
        Some((Span { start, end: start + 2 }, src.skip_spaces(start + 2)))
    } else if c == '<' || c == '>' {
        Some((Span { start, end: start + 1 }, src.skip_spaces(start + 1)))
    } else {
        None
    }
}

/// Reads a quoted value and the white space around it.
fn read_spaced_literal(src: &Source, pos: usize) -> (r: Option<(Span, usize)>)
    requires
        pos <= src@.len(),
    ensures
        match r {
            Some((span, end)) => spaced_literal(src@, pos as int) == Some(
                (span.of(src@), end as int),
            ) && span.within(src@) && pos < end <= src@.len(),
            None => spaced_literal(src@, pos as int) is None,
        },
{
    let start = src.skip_spaces(pos);
    if !src.symbol(start, '\'') {
        return None;
    }
    let end = scan_run(src, start + 1, Run::Quoted);
    if start + 1 < end && end < src.len() {
        Some((Span { start: start + 1, end }, src.skip_spaces(end + 1)))
    } else {
        None
    }
}

/// The column, the operator and the value of a comparison, as pieces of
/// the text.
#[derive(Debug, Clone, Copy, PartialEq, Eq, Structural)]
pub struct TripleSpan {
    pub column: Span,
    pub operator: Span,
    pub value: Span,
}

impl TripleSpan {
    /// The comparison that the pieces make.
    pub open spec fn of(self, s: Seq<char>) -> Triple {
        Triple { column: self.column.of(s), operator: self.operator.of(s), value: self.value.of(s) }
    }

    /// Whether the pieces lie within `s`.
    pub open spec fn within(self, s: Seq<char>) -> bool {
        self.column.within(s) && self.operator.within(s) && self.value.within(s)
    }
}

/// Reads a comparison.
fn read_spaced_comparison(src: &Source, pos: usize) -> (r: Option<(TripleSpan, usize)>)
    requires
        pos <= src@.len(),
    ensures
        match r {
            Some((t, end)) => spaced_comparison(src@, pos as int) == Some((t.of(src@), end as int))
                && t.within(src@) && pos < end <= src@.len(),
            None => spaced_comparison(src@, pos as int) is None,
        },
{
    let (column, at_operator) = match read_spaced_name(src, pos) {
        Some(found) => found,
        None => {
            return None;
        },
    };
    let (operator, at_value) = match read_spaced_operator(src, at_operator) {
        Some(found) => found,
        None => {
            return None;
        },
    };
    let (value, end) = match read_spaced_literal(src, at_value) {
        Some(found) => found,
        None => {
            return None;
        },
    };
    Some((TripleSpan { column, operator, value }, end))
}

/// The comparison that a column, an operator and a value make.
pub fn where_clause_of(column: &str, operator: &str, value: &str) -> (r: WhereClause)
    ensures
        r@ == clause_of(Triple { column: column@, operator: operator@, value: value@ }),
{
    let c = String::from_str(column);
    let v = String::from_str(value);
    if str_equal(operator, "=") {
        WhereClause::Equal(c, v)
    } else if str_equal(operator, "<>") || str_equal(operator, "!=") {
        WhereClause::NotEqual(c, v)
    } else if str_equal(operator, "<") {
        WhereClause::LessThan(c, v)
    } else if str_equal(operator, "<=") {
        WhereClause::LessThanOrEqual(c, v)
    } else if str_equal(operator, ">") {
        WhereClause::GreaterThan(c, v)
    } else if str_equal(operator, ">=") {
        WhereClause::GreaterThanOrEqual(c, v)
    } else {
        WhereClause::UnknownOperator(c, v)
    }
}

/// The triples that a sequence of string triples holds.
pub open spec fn triples_of(list: Seq<(&str, &str, &str)>) -> Seq<Triple> {
    list.map_values(
        |t: (&str, &str, &str)| Triple { column: t.0@, operator: t.1@, value: t.2@ },
    )
}

/// The comparisons of a `WHERE` clause, if there is one, by operator.
pub fn where_clause_to_enum(wh: Option<Vec<(&str, &str, &str)>>) -> (r: Option<Vec<WhereClause>>)
    ensures
        match wh {
            Some(list) => r is Some && clauses_of(r->0@) == clauses_from(triples_of(list@)),
            None => r is None,
        },
{
    match wh {
        None => None,
        Some(list) => {
            let mut out: Vec<WhereClause> = Vec::new();
            let mut i: usize = 0;
            while i < list.len()
                invariant
                    i <= list@.len(),
                    out@.len() == i,
                    forall|k: int|
                        0 <= k < i ==> (#[trigger] out@[k])@ == clause_of(triples_of(list@)[k]),
                decreases list@.len() - i,
            {
                let (column, operator, value) = list[i];
                out.push(where_clause_of(column, operator, value));
                i = i + 1;
            }
            assert(clauses_of(out@) =~= clauses_from(triples_of(list@)));
            Some(out)
        },
    }
}

/// Reads a list of comparisons joined by `AND`. It never fails.
fn read_where_list(src: &Source, pos: usize) -> (r: (Vec<WhereClause>, usize))
    requires
        pos <= src@.len(),
    ensures
        clauses_of(r.0@) == clauses_from(where_list(src@, pos as int).0),
        r.1 == where_list(src@, pos as int).1,
        pos <= r.1 <= src@.len(),
{
    let mut clauses: Vec<WhereClause> = Vec::new();
    let ghost mut triples: Seq<Triple> = Seq::empty();
    assert(clauses_of(clauses@) =~= clauses_from(triples));
    let (first, next) = match read_spaced_comparison(src, pos) {
        Some(found) => found,
        None => {
            return (clauses, pos);
        },
    };
    let clause = clause_from_span(src, first);
    proof {
        assert(clauses_of(clauses@.push(clause)) =~= clauses_from(seq![first.of(src@)]));
        triples = seq![first.of(src@)];
    }
    clauses.push(clause);
    let mut cur: usize = next;
    loop
        invariant
            pos <= cur <= src@.len(),
            clauses_of(clauses@) == clauses_from(triples),
            more_comparisons(src@, cur as int, triples) == where_list(src@, pos as int),
        decreases src@.len() - cur,
    {
        let after = match read_spaced_tag(src, cur, "AND") {
            Some(after) => after,
            None => {
                return (clauses, cur);
            },
        };
        let (span, next) = match read_spaced_comparison(src, after) {
            Some(found) => found,
            None => {
                return (clauses, cur);
            },
        };
        let clause = clause_from_span(src, span);
        proof {
            assert(clauses_of(clauses@.push(clause)) =~= clauses_of(clauses@).push(clause@));
            assert(clauses_from(triples.push(span.of(src@))) =~= clauses_from(triples).push(
                clause_of(span.of(src@)),
            ));
            triples = triples.push(span.of(src@));
        }
        clauses.push(clause);
        cur = next;
    }
}

/// The comparison that three pieces of the text make.
fn clause_from_span(src: &Source, t: TripleSpan) -> (r: WhereClause)
    requires
        t.within(src@),
    ensures
        r@ == clause_of(t.of(src@)),
{
    let column = src.slice(t.column.start, t.column.end);
    let operator = src.slice(t.operator.start, t.operator.end);
    let value = src.slice(t.value.start, t.value.end);
    where_clause_of(column.as_str(), operator.as_str(), value.as_str())
}

/// The number that the digits from `start` to `end` write.
fn read_limit_number(src: &Source, start: usize, end: usize) -> (r: Option<usize>)
    requires
        start <= end <= src@.len(),
    ensures
        r == limit_number(src@.subrange(start as int, end as int)),
{
    let ghost text = src@.subrange(start as int, end as int);
    let mut value: usize = 0;
    let mut i: usize = start;
    assert(text.take(0) =~= Seq::<char>::empty());
    assert(digits_of(Seq::<char>::empty()) =~= Seq::<u8>::empty());
    while i < end
        invariant
            start <= i <= end <= src@.len(),
            text == src@.subrange(start as int, end as int),
            forall|k: int| 0 <= k < i - start ==> is_digit(#[trigger] text[k]),
            value == digits_value(digits_of(text.take(i - start))),
        decreases end - i,
    {
        let c = src.at(i);
        assert(text[i - start] == c);
        if !crate::text::char_is_digit(c) {
            return None;
        }
        let digit = crate::text::digit_of(c) as usize;
        proof {
            let shorter = text.take(i - start);
            let longer = text.take(i - start + 1);
            assert(digits_of(longer).drop_last() =~= digits_of(shorter));
            assert(digits_of(longer).last() == digit);
            lemma_prefix_value(digits_of(text), (i - start + 1) as int);
            assert(digits_of(text).take(i - start + 1) =~= digits_of(longer));
        }
        if value > (usize::MAX - digit) / 10 {
            return None;
        }
        value = value * 10 + digit;
        i = i + 1;
    }
    assert(text.take(end - start) =~= text);
    Some(value)
}

/// The digits of a number write at least what any of their prefixes
/// writes.
proof fn lemma_prefix_value(d: Seq<u8>, i: int)
    requires
        0 <= i <= d.len(),
    ensures
        digits_value(d.take(i)) <= digits_value(d),
{
    crate::decimal::lemma_digits_value_split(d, i);
    crate::decimal::lemma_pow10_positive((d.len() - i) as nat);
    let a = digits_value(d.take(i)) as int;
    let p = crate::decimal::pow10((d.len() - i) as nat) as int;
    assert(a * p >= a) by (nonlinear_arith)
        requires
            a >= 0,
            p >= 1,
    ;
}

/// Reads a `LIMIT` with its number.
fn read_limit(src: &Source, pos: usize) -> (r: Result<Option<(usize, usize)>, Unreadable>)
    requires
        pos <= src@.len(),
    ensures
        match r {
            Ok(Some((n, end))) => limit_statement(src@, pos as int) == Step::Done(n, end as int)
                && pos <= end <= src@.len(),
            Ok(None) => limit_statement(src@, pos as int) is Fail,
            Err(_) => limit_statement(src@, pos as int) is Broken,
        },
{
    let after = match read_spaced_tag(src, pos, "LIMIT") {
        Some(after) => after,
        None => {
            return Ok(None);
        },
    };
    let start = src.skip_spaces(after);
    let end = scan_run(src, start, Run::Number);
    if start >= end {
        return Ok(None);
    }
    match read_limit_number(src, start, end) {
        Some(n) => Ok(Some((n, src.skip_spaces(end)))),
        None => Err(Unreadable),
    }
}

/// Reads a path, which may be empty, and the white space around it.
fn read_spaced_path(src: &Source, pos: usize) -> (r: (String, usize))
    requires
        pos <= src@.len(),
    ensures
        spaced_path(src@, pos as int) == (r.0@, r.1 as int),
        pos <= r.1 <= src@.len(),
{
    let start = src.skip_spaces(pos);
    let end = scan_run(src, start, Run::Path);
    (src.slice(start, end), src.skip_spaces(end))
}

/// Reads `ASC` or `DESC`.
fn read_ordering(src: &Source, pos: usize) -> (r: Option<(ResultOrder, usize)>)
    requires
        pos <= src@.len(),
    ensures
        match r {
            Some((order, end)) => ordering_clause(src@, pos as int) == Some((order, end as int))
                && pos <= end <= src@.len(),
            None => ordering_clause(src@, pos as int) is None,
        },
{
    if let Some(end) = read_spaced_tag(src, pos, "ASC") {
        return Some((ResultOrder::Ascending, end));
    }
    if let Some(end) = read_spaced_tag(src, pos, "DESC") {
        return Some((ResultOrder::Descending, end));
    }
    None
}

/// Reads a `SELECT` statement.
fn read_select(src: &Source, pos: usize) -> (r: Result<Option<(Command, usize)>, Unreadable>)
    requires
        pos <= src@.len(),
    ensures
        match r {
            Ok(Some((c, end))) => select_statement(src@, pos as int) == Step::Done(c@, end as int)
                && pos <= end <= src@.len(),
            Ok(None) => select_statement(src@, pos as int) is Fail,
            Err(_) => select_statement(src@, pos as int) is Broken,
        },
{
    let at_columns = match read_spaced_tag(src, pos, "SELECT") {
        Some(after) => after,
        None => {
            return Ok(None);
        },
    };
    let (props, at_where) = read_column_list(src, at_columns);
    let (where_clause, at_order) = match read_spaced_tag(src, at_where, "WHERE") {
        Some(after) => {
            let (clauses, end) = read_where_list(src, after);
            (Some(clauses), end)
        },
        None => (None, at_where),
    };
    let mut order_by: Option<Vec<String>> = None;
    let mut at_limit: usize = at_order;
    if let Some(after) = read_spaced_tag(src, at_order, "ORDER") {
        if let Some(at_list) = read_spaced_tag(src, after, "BY") {
            let (columns, end) = read_column_list(src, at_list);
            order_by = Some(columns);
            at_limit = end;
        }
    }
    let (limit, at_from) = match read_limit(src, at_limit) {
        Err(e) => {
            return Err(e);
        },
        Ok(Some((n, next))) => (Some(n), next),
        Ok(None) => (None, at_limit),
    };
    let (from_path, at_ordering) = match read_spaced_tag(src, at_from, "FROM") {
        Some(after) => {
            let (path, end) = read_spaced_path(src, after);
            (Some(path), end)
        },
        None => (None, at_from),
    };
    let (ordering, end) = match read_ordering(src, at_ordering) {
        Some((order, next)) => (Some(order), next),
        None => (None, at_ordering),
    };
    Ok(Some((Command::Select { props, where_clause, order_by, limit, from_path, ordering }, end)))
}

/// Reads a change of directory.
fn read_cd(src: &Source, pos: usize) -> (r: Option<(Command, usize)>)
    requires
        pos <= src@.len(),
    ensures
        match r {
            Some((c, end)) => cd_statement(src@, pos as int) == Some((c@, end as int)) && pos
                <= end <= src@.len(),
            None => cd_statement(src@, pos as int) is None,
        },
{
    let at_path = match read_spaced_tag(src, pos, "CD") {
        Some(after) => after,
        None => match read_spaced_tag(src, pos, "CHANGEDIR") {
            Some(after) => after,
            None => {
                return None;
            },
        },
    };
    let (path, end) = read_spaced_path(src, at_path);
    Some((Command::ChangeDir { path }, end))
}

/// Reads one command.
fn read_command(src: &Source, pos: usize) -> (r: Result<Option<(Command, usize)>, Unreadable>)
    requires
        pos <= src@.len(),
    ensures
        match r {
            Ok(Some((c, end))) => command(src@, pos as int) == Step::Done(c@, end as int) && pos
                <= end <= src@.len(),
            Ok(None) => command(src@, pos as int) is Fail,
            Err(_) => command(src@, pos as int) is Broken,
        },
{
    match read_select(src, pos) {
        Err(e) => {
            return Err(e);
        },
        Ok(Some(found)) => {
            return Ok(Some(found));
        },
        Ok(None) => {},
    }
    if let Some(found) = read_cd(src, pos) {
        return Ok(Some(found));
    }
    if let Some(end) = read_spaced_tag(src, pos, "SHOW") {
        return Ok(Some((Command::Show, end)));
    }
    if let Some(after) = read_spaced_tag(src, pos, "EXISTS") {
        let (where_clause, end) = read_where_list(src, after);
        return Ok(Some((Command::Exists { where_clause }, end)));
    }
    Ok(None)
}

/// Reads one command and the white space around it.
fn read_spaced_command(src: &Source, pos: usize) -> (r: Result<
    Option<(Command, usize)>,
    Unreadable,
>)
    requires
        pos <= src@.len(),
    ensures
        match r {
            Ok(Some((c, end))) => spaced_command(src@, pos as int) == Step::Done(
                c@,
                end as int,
            ) && pos <= end <= src@.len(),
            Ok(None) => spaced_command(src@, pos as int) is Fail,
            Err(_) => spaced_command(src@, pos as int) is Broken,
        },
{
    let start = src.skip_spaces(pos);
    match read_command(src, start) {
        Err(e) => Err(e),
        Ok(None) => Ok(None),
        Ok(Some((c, end))) => Ok(Some((c, src.skip_spaces(end)))),
    }
}

/// Reads the commands of a text and returns them with the number of
/// characters read, or `Err` if the text cannot be read.
pub fn read_commands(input: &str) -> (r: Result<(Vec<Command>, usize), Unreadable>)
    ensures
        match r {
            Ok((list, end)) => commands(input@) == Step::Done(commands_view(list@), end as int)
                && end <= input@.len(),
            Err(_) => commands(input@) is Broken,
        },
{
    let src = Source::new(input);
    let mut list: Vec<Command> = Vec::new();
    assert(commands_view(list@) =~= Seq::<CommandView>::empty());
    let (first, next) = match read_spaced_command(&src, 0) {
        Err(e) => {
            return Err(e);
        },
        Ok(None) => {
            return Ok((list, 0));
        },
        Ok(Some(found)) => found,
    };
    proof {
        assert(commands_view(list@.push(first)) =~= seq![first@]);
    }
    list.push(first);
    let mut cur: usize = next;
    loop
        invariant
            cur <= src@.len(),
            src@ == input@,
            more_commands(src@, cur as int, commands_view(list@)) == commands(input@),
        decreases src@.len() - cur,
    {
        let after = match read_spaced_char(&src, cur, ';') {
            Some(after) => after,
            None => {
                return Ok((list, cur));
            },
        };
        let (c, next) = match read_spaced_command(&src, after) {
            Err(e) => {
                return Err(e);
            },
            Ok(None) => {
                return Ok((list, cur));
            },
            Ok(Some(found)) => found,
        };
        proof {
            assert(commands_view(list@.push(c)) =~= commands_view(list@).push(c@));
        }
        list.push(c);
        cur = next;
    }
}

/// Whether a text can be read.
pub fn is_readable(input: &str) -> (r: bool)
    ensures
        r == readable(input@),
{
    read_commands(input).is_ok()
}

/// The commands of a text and what is left of it, or `None` if the text
/// holds a `LIMIT` whose number cannot be read.
pub fn try_parse(input: &str) -> (r: Option<(&str, Vec<Command>)>)
    ensures
        match r {
            Some((rest, list)) => commands(input@) matches Step::Done(found, end) && found
                == commands_view(list@) && 0 <= end <= input@.len() && rest@ == input@.subrange(
                end,
                input@.len() as int,
            ),
            None => !readable(input@),
        },
{
    if is_readable(input) {
        Some(parse(input))
    } else {
        None
    }
}

/// The commands of a text and what is left of it. The text must be one
/// that can be read.
pub fn parse(input: &str) -> (r: (&str, Vec<Command>))
    requires
        readable(input@),
    ensures
        commands(input@) matches Step::Done(found, end) && found == commands_view(r.1@) && 0
            <= end <= input@.len() && r.0@ == input@.subrange(end, input@.len() as int),
{
    match read_commands(input) {
        Ok((list, end)) => {
            let total = input.unicode_len();
            (input.substring_char(end, total), list)
        },
        Err(_) => {
            let list: Vec<Command> = Vec::new();
            (input, list)
        },
    }
}

} // verus!
