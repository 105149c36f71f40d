//! The condition evaluator: whether an entry matches a condition tree.
//!
//! Each field has its own comparison rules; a comparison that makes no
//! sense for its field (an unknown field, a literal of the wrong kind, an
//! operator the field does not support, a date that cannot be read) matches
//! nothing.

use crate::decimal::{scaled_comparison, within_tolerance, Comparison, Decimal, DecimalView};
use crate::entry::{EntryView, FSEntry, Timestamp};
use crate::text::{chars_of, lower_case, occurs_in, str_contains, str_equal, to_lower};
use crate::types::{
    condition_view, ComparisonOperator, ConditionNode, ConditionNodeView, ConditionView,
    LogicalOperator, Value, ValueView,
};
use vstd::prelude::*;
use vstd::string::StringExecFns;

verus! {

/// The fields a condition can name.
#[derive(Debug, Clone, Copy, PartialEq, Eq, Structural)]
pub enum Field {
    Name,
    Path,
    Extension,
    Permissions,
    Size,
    Modified,
    Created,
    IsHidden,
    IsReadonly,
    Kind,
}

/// The field written `name` in a condition, if there is one.
pub open spec fn field_named(name: Seq<char>) -> Option<Field> {
    if name == "name"@ {
        Some(Field::Name)
    } else if name == "path"@ {
        Some(Field::Path)
    } else if name == "ext"@ {
        Some(Field::Extension)
    } else if name == "permissions"@ {
        Some(Field::Permissions)
    } else if name == "size"@ {
        Some(Field::Size)
    } else if name == "modified"@ {
        Some(Field::Modified)
    } else if name == "created"@ {
        Some(Field::Created)
    } else if name == "is_hidden"@ {
        Some(Field::IsHidden)
    } else if name == "is_readonly"@ {
        Some(Field::IsReadonly)
    } else if name == "type"@ {
        Some(Field::Kind)
    } else {
        None
    }
}

/// What a regular expression says of a text: `None` if `pattern` is not a
/// valid expression, else whether it matches somewhere in `text`.
pub uninterp spec fn regex_match(pattern: Seq<char>, text: Seq<char>) -> Option<bool>;

/// The seconds from 1970-01-01 00:00:00 to the date and time that `chrono`
/// reads from `text` with `format`, on a clock without time zone; `None` if
/// it reads none.
pub uninterp spec fn naive_seconds(text: Seq<char>, format: Seq<char>) -> Option<i64>;

/// The format in which a date with its time of day is read.
pub open spec fn date_time_format() -> Seq<char> {
    "%Y-%m-%d %H:%M:%S"@
}

/// The midnight that starts the day written `date` as `YYYY-MM-DD`, in
/// seconds from 1970-01-01 00:00:00 on a clock without time zone: the date
/// is read with the time of day `00:00:00` behind it.
pub open spec fn midnight_of(date: Seq<char>) -> Option<i64> {
    naive_seconds(date + " 00:00:00"@, date_time_format())
}

/// The regular expression that stands for one character of a wildcard
/// pattern: `*` is any run of characters, `?` any one character, anything
/// else itself.
pub open spec fn wildcard_piece(c: char) -> Seq<char> {
    if c == '*' {
        seq!['.', '*']
    } else if c == '?' {
        seq!['.']
    } else {
        seq![c]
    }
}

/// The pieces of a wildcard pattern, one after the other.
pub open spec fn wildcard_body(glob: Seq<char>) -> Seq<char>
    decreases glob.len(),
{
    if glob.len() == 0 {
        Seq::empty()
    } else {
        wildcard_body(glob.drop_last()) + wildcard_piece(glob.last())
    }
}

/// The regular expression for a wildcard pattern, anchored at both ends.
pub open spec fn like_pattern(glob: Seq<char>) -> Seq<char> {
    seq!['^'] + wildcard_body(glob) + seq!['$']
}

/// What `LIKE` decides from the outcome of the pattern and, should the
/// pattern be no valid expression, from that of the expression `^$`.
pub open spec fn like_verdict(outcome: Option<bool>, fallback: Option<bool>) -> bool {
    match outcome {
        Some(matched) => matched,
        None => match fallback {
            Some(matched) => matched,
            None => false,
        },
    }
}

/// Whether `field` matches the wildcard pattern `glob`.
pub open spec fn like_matches(glob: Seq<char>, field: Seq<char>) -> bool {
    like_verdict(regex_match(like_pattern(glob), field), regex_match(seq!['^', '$'], field))
}

/// The rules for a text field: equality, inequality, `LIKE` and `CONTAINS`
/// against a string literal.
pub open spec fn text_matches(field: Seq<char>, op: ComparisonOperator, value: ValueView) -> bool {
    match value {
        ValueView::String(s) => match op {
            ComparisonOperator::Equal => field == s,
            ComparisonOperator::NotEqual => field != s,
            ComparisonOperator::Like => like_matches(s, field),
            ComparisonOperator::Contains => occurs_in(field, s),
            _ => false,
        },
        _ => false,
    }
}

/// The number of bytes in one `unit`: `b`, `kb`, `mb`, `gb` and `tb`,
/// once the unit is brought to lower case, are powers of 1024; any other
/// unit counts bytes.
pub open spec fn unit_bytes(unit: Seq<char>) -> u64 {
    let lower = lower_case(unit);
    if lower == "b"@ {
        1
    } else if lower == "kb"@ {
        1024
    } else if lower == "mb"@ {
        1_048_576
    } else if lower == "gb"@ {
        1_073_741_824
    } else if lower == "tb"@ {
        1_099_511_627_776
    } else {
        1
    }
}

/// How a number of bytes stands to a literal taken `unit` times: equality
/// and inequality hold up to the tolerance, the other operators compare
/// exactly. `LIKE` and `CONTAINS` compare no numbers.
pub open spec fn amount_matches(size: u64, op: ComparisonOperator, n: DecimalView, unit: u64) -> bool {
    match op {
        ComparisonOperator::Equal => within_tolerance(size, n, unit),
        ComparisonOperator::NotEqual => !within_tolerance(size, n, unit),
        ComparisonOperator::LessThan => scaled_comparison(size, n, unit) == Comparison::Less,
        ComparisonOperator::LessOrEqual => scaled_comparison(size, n, unit)
            != Comparison::Greater,
        ComparisonOperator::GreaterThan => scaled_comparison(size, n, unit) == Comparison::Greater,
        ComparisonOperator::GreaterOrEqual => scaled_comparison(size, n, unit) != Comparison::Less,
        _ => false,
    }
}

/// The rules for the size: a comparison with a number of bytes, or with a
/// number of units brought to bytes.
pub open spec fn size_matches(size: u64, op: ComparisonOperator, value: ValueView) -> bool {
    match value {
        ValueView::Number(n) => amount_matches(size, op, n, 1),
        ValueView::SizedNumber(n, unit) => amount_matches(size, op, n, unit_bytes(unit)),
        _ => false,
    }
}

/// What is equal exactly is equal up to the tolerance.
pub proof fn lemma_exact_equality_is_within_tolerance(size: u64, n: DecimalView, unit: u64)
    requires
        scaled_comparison(size, n, unit) == Comparison::Equal,
    ensures
        within_tolerance(size, n, unit),
{
    crate::decimal::lemma_pow10_positive(n.scale());
}

/// The day, counted from 1970-01-01, in which the nanosecond `at` falls.
pub open spec fn day_of(at: int) -> int {
    at / 86_400_000_000_000
}

/// How a reading of the clock stands to a midnight given in seconds:
/// equality and inequality compare the days, the other operators the
/// instants.
pub open spec fn date_holds(stamp: Timestamp, op: ComparisonOperator, midnight: i64) -> bool {
    let at = stamp.instant();
    let limit = midnight * 1_000_000_000;
    match op {
        ComparisonOperator::Equal => day_of(at) == day_of(limit),
        ComparisonOperator::NotEqual => day_of(at) != day_of(limit),
        ComparisonOperator::LessThan => at < limit,
        ComparisonOperator::LessOrEqual => at <= limit,
        ComparisonOperator::GreaterThan => at > limit,
        ComparisonOperator::GreaterOrEqual => at >= limit,
        _ => false,
    }
}

/// The rules for a date: the literal must be a string that reads as
/// `YYYY-MM-DD`, and stands for the midnight that starts that day.
pub open spec fn date_matches(stamp: Timestamp, op: ComparisonOperator, value: ValueView) -> bool {
    match value {
        ValueView::String(s) => match midnight_of(s) {
            Some(midnight) => date_holds(stamp, op, midnight),
            None => false,
        },
        _ => false,
    }
}

/// The rules for a flag: equality and inequality with `true` or `false`.
pub open spec fn flag_matches(flag: bool, op: ComparisonOperator, value: ValueView) -> bool {
    match value {
        ValueView::Bool(b) => match op {
            ComparisonOperator::Equal => flag == b,
            ComparisonOperator::NotEqual => flag != b,
            _ => false,
        },
        _ => false,
    }
}

/// The text that stands for the kind of an entry.
pub open spec fn kind_text(is_dir: bool) -> Seq<char> {
    if is_dir {
        "dir"@
    } else {
        "file"@
    }
}

/// The rules for the kind: the text `dir` or `file`, compared as any other
/// text.
pub open spec fn kind_matches(is_dir: bool, op: ComparisonOperator, value: ValueView) -> bool {
    text_matches(kind_text(is_dir), op, value)
}

/// Whether the entry `e` satisfies the comparison `c`.
pub open spec fn leaf_matches(e: EntryView, c: ConditionView) -> bool {
    match field_named(c.identifier) {
        Some(Field::Name) => text_matches(e.name, c.operator, c.value),
        Some(Field::Path) => text_matches(e.path, c.operator, c.value),
        Some(Field::Extension) => match e.extension {
            Some(ext) => text_matches(ext, c.operator, c.value),
            None => false,
        },
        Some(Field::Permissions) => text_matches(e.permissions, c.operator, c.value),
        Some(Field::Size) => size_matches(e.size, c.operator, c.value),
        Some(Field::Modified) => date_matches(e.modified, c.operator, c.value),
        Some(Field::Created) => date_matches(e.created, c.operator, c.value),
        Some(Field::IsHidden) => flag_matches(e.is_hidden, c.operator, c.value),
        Some(Field::IsReadonly) => flag_matches(
            occurs_in(e.permissions, "readonly"@),
            c.operator,
            c.value,
        ),
        Some(Field::Kind) => kind_matches(e.is_dir, c.operator, c.value),
        None => false,
    }
}

/// Whether the entry `e` satisfies the condition tree `n`.
pub open spec fn node_matches(e: EntryView, n: ConditionNodeView) -> bool
    decreases n,
{
    match n {
        ConditionNodeView::Leaf(c) => leaf_matches(e, c),
        ConditionNodeView::Branch { left, operator, right } => match operator {
            LogicalOperator::And => node_matches(e, *left) && node_matches(e, *right),
            LogicalOperator::Or => node_matches(e, *left) || node_matches(e, *right),
        },
    }
}

/// Whether the entry `e` satisfies an optional condition: none is
/// satisfied by every entry.
pub open spec fn condition_matches(e: EntryView, condition: Option<ConditionNodeView>) -> bool {
    match condition {
        Some(n) => node_matches(e, n),
        None => true,
    }
}

/// An entry matches `left AND right` exactly when it matches both.
pub proof fn lemma_and_is_conjunction(e: EntryView, left: ConditionNodeView, right: ConditionNodeView)
    ensures
        node_matches(
            e,
            ConditionNodeView::Branch {
                left: Box::new(left),
                operator: LogicalOperator::And,
                right: Box::new(right),
            },
        ) == (node_matches(e, left) && node_matches(e, right)),
{
}

/// An entry matches `left OR right` exactly when it matches at least one.
pub proof fn lemma_or_is_disjunction(e: EntryView, left: ConditionNodeView, right: ConditionNodeView)
    ensures
        node_matches(
            e,
            ConditionNodeView::Branch {
                left: Box::new(left),
                operator: LogicalOperator::Or,
                right: Box::new(right),
            },
        ) == (node_matches(e, left) || node_matches(e, right)),
{
}

/// `regex::Regex::new` on `pattern`, then `Regex::is_match` on `text`: the
/// result is named, not described; an invalid pattern gives `None`.
#[verifier::external_body]
fn regex_is_match(pattern: &str, text: &str) -> (r: Option<bool>)
    ensures
        r == regex_match(pattern@, text@),
{
    match regex::Regex::new(pattern) {
        Ok(re) => Some(re.is_match(text)),
        Err(_) => None,
    }
}

/// `chrono::NaiveDateTime::parse_from_str` on `text` with `format`, then
/// the seconds of the result since 1970 as `and_utc().timestamp()` gives
/// them: the result is named, not described; a text that does not parse
/// gives `None`. Only the one format is admitted that the library reads
/// dates with.
#[verifier::external_body]
fn parse_naive_seconds(text: &str, format: &str) -> (r: Option<i64>)
    requires
        format@ == date_time_format(),
    ensures
        r == naive_seconds(text@, format@),
{
    match chrono::NaiveDateTime::parse_from_str(text, format) {
        Ok(at) => Some(at.and_utc().timestamp()),
        Err(_) => None,
    }
}

/// The midnight that starts the day written `date`, if `date` reads as a
/// date.
pub fn parse_midnight(date: &str) -> (r: Option<i64>)
    ensures
        r == midnight_of(date@),
{
    let stamp = String::from_str(date).concat(" 00:00:00");
    parse_naive_seconds(stamp.as_str(), "%Y-%m-%d %H:%M:%S")
}

/// Whether a text gives a valid regular expression.
pub fn regex_is_valid(pattern: &str) -> (r: bool)
    ensures
        r == (regex_match(pattern@, Seq::empty()) is Some),
{
    proof {
        reveal_strlit("");
        assert(""@ =~= Seq::<char>::empty());
    }
    regex_is_match(pattern, "").is_some()
}

/// Whether a unit is one of `b`, `kb`, `mb`, `gb`, `tb` once it is brought
/// to lower case.
pub fn unit_is_known(unit: &str) -> (r: bool)
    ensures
        r == crate::diagnosis::unit_known(unit@),
{
    let lowered = to_lower(unit);
    let lower = lowered.as_str();
    str_equal(lower, "b") || str_equal(lower, "kb") || str_equal(lower, "mb") || str_equal(
        lower,
        "gb",
    ) || str_equal(lower, "tb")
}

/// The field written `name` in a condition, if there is one.
pub fn lookup_field(name: &str) -> (r: Option<Field>)
    ensures
        r == field_named(name@),
{
    if str_equal(name, "name") {
        Some(Field::Name)
    } else if str_equal(name, "path") {
        Some(Field::Path)
    } else if str_equal(name, "ext") {
        Some(Field::Extension)
    } else if str_equal(name, "permissions") {
        Some(Field::Permissions)
    } else if str_equal(name, "size") {
        Some(Field::Size)
    } else if str_equal(name, "modified") {
        Some(Field::Modified)
    } else if str_equal(name, "created") {
        Some(Field::Created)
    } else if str_equal(name, "is_hidden") {
        Some(Field::IsHidden)
    } else if str_equal(name, "is_readonly") {
        Some(Field::IsReadonly)
    } else if str_equal(name, "type") {
        Some(Field::Kind)
    } else {
        None
    }
}

/// The anchored regular expression for a wildcard pattern.
pub fn wildcard_to_regex(glob: &str) -> (r: String)
    ensures
        r@ == like_pattern(glob@),
{
    let chars = chars_of(glob);
    let mut out = String::from_str("^");
    proof {
        reveal_strlit("^");
        reveal_strlit(".*");
        reveal_strlit(".");
        reveal_strlit("$");
        assert(out@ =~= seq!['^'] + wildcard_body(chars@.take(0)));
    }
    let mut i: usize = 0;
    while i < chars.len()
        invariant
            i <= chars@.len(),
            chars@ == glob@,
            out@ == seq!['^'] + wildcard_body(chars@.take(i as int)),
        decreases chars@.len() - i,
    {
        let c = chars[i];
        proof {
            reveal_strlit(".*");
            reveal_strlit(".");
            let longer = chars@.take(i + 1);
            assert(longer.drop_last() =~= chars@.take(i as int));
            assert(longer.last() == c);
        }
        let ghost before = out@;
        if c == '*' {
            out.append(".*");
        } else if c == '?' {
            out.append(".");
        } else {
            let piece = glob.substring_char(i, i + 1);
            assert(piece@ =~= seq![c]);
            out.append(piece);
        }
        assert(out@ =~= before + wildcard_piece(c));
        assert(out@ =~= seq!['^'] + wildcard_body(chars@.take(i + 1)));
        i = i + 1;
    }
    assert(chars@.take(i as int) =~= chars@);
    out.append("$");
    proof {
        reveal_strlit("$");
        assert(out@ =~= like_pattern(glob@));
    }
    out
}

/// What `LIKE` decides from the outcome of the pattern and, should the
/// pattern be no valid expression, from that of the expression `^$`.
pub fn like_outcome(outcome: Option<bool>, fallback: Option<bool>) -> (r: bool)
    ensures
        r == like_verdict(outcome, fallback),
{
    match outcome {
        Some(matched) => matched,
        None => match fallback {
            Some(matched) => matched,
            None => false,
        },
    }
}

/// Whether `field` matches the wildcard pattern `glob`.
pub fn matches_wildcard(glob: &str, field: &str) -> (r: bool)
    ensures
        r == like_matches(glob@, field@),
{
    let pattern = wildcard_to_regex(glob);
    let outcome = regex_is_match(pattern.as_str(), field);
    proof {
        reveal_strlit("^$");
        assert("^$"@ =~= seq!['^', '$']);
    }
    let fallback = if outcome.is_none() {
        regex_is_match("^$", field)
    } else {
        None
    };
    like_outcome(outcome, fallback)
}

/// The number of bytes in one `unit`.
pub fn bytes_per_unit(unit: &str) -> (r: u64)
    ensures
        r == unit_bytes(unit@),
{
    let lowered = to_lower(unit);
    let lower = lowered.as_str();
    if str_equal(lower, "b") {
        1
    } else if str_equal(lower, "kb") {
        1024
    } else if str_equal(lower, "mb") {
        1_048_576
    } else if str_equal(lower, "gb") {
        1_073_741_824
    } else if str_equal(lower, "tb") {
        1_099_511_627_776
    } else {
        1
    }
}

/// How a number of bytes stands to a literal taken `unit` times.
pub fn compare_amount(size: u64, op: &ComparisonOperator, n: &Decimal, unit: u64) -> (r: bool)
    ensures
        r == amount_matches(size, *op, n@, unit),
{
    match op {
        ComparisonOperator::Equal => n.equals_scaled(size, unit),
        ComparisonOperator::NotEqual => !n.equals_scaled(size, unit),
        ComparisonOperator::LessThan => n.compare_scaled(size, unit) == Comparison::Less,
        ComparisonOperator::LessOrEqual => n.compare_scaled(size, unit) != Comparison::Greater,
        ComparisonOperator::GreaterThan => n.compare_scaled(size, unit) == Comparison::Greater,
        ComparisonOperator::GreaterOrEqual => n.compare_scaled(size, unit) != Comparison::Less,
        _ => false,
    }
}

/// The day in which the nanosecond `at` falls.
fn day_number(at: i128) -> (d: i128)
    requires
        -0x10_0000_0000_0000_0000_0000_0000 < at < 0x10_0000_0000_0000_0000_0000_0000,
    ensures
        d == day_of(at as int),
{
    let span: i128 = 86_400_000_000_000;
    if at >= 0 {
        at / span
    } else {
        let below: i128 = -(at + 1);
        -(below / span) - 1
    }
}

/// How a reading of the clock stands to a midnight given in seconds.
pub fn date_verdict(date: &Timestamp, operator: &ComparisonOperator, midnight: i64) -> (r: bool)
    ensures
        r == date_holds(*date, *operator, midnight),
{
    let at: i128 = date.nanoseconds();
    let limit: i128 = midnight as i128 * 1_000_000_000;
    match operator {
        ComparisonOperator::Equal => day_number(at) == day_number(limit),
        ComparisonOperator::NotEqual => day_number(at) != day_number(limit),
        ComparisonOperator::LessThan => at < limit,
        ComparisonOperator::LessOrEqual => at <= limit,
        ComparisonOperator::GreaterThan => at > limit,
        ComparisonOperator::GreaterOrEqual => at >= limit,
        _ => false,
    }
}

/// Whether a flag satisfies a comparison.
pub fn compare_flag(flag: bool, operator: &ComparisonOperator, value: &Value) -> (r: bool)
    ensures
        r == flag_matches(flag, *operator, value@),
{
    match value {
        Value::Bool(b) => match operator {
            ComparisonOperator::Equal => flag == *b,
            ComparisonOperator::NotEqual => flag != *b,
            _ => false,
        },
        _ => false,
    }
}

/// Whether a text satisfies a comparison.
pub fn compare_text(field: &str, operator: &ComparisonOperator, value: &Value) -> (r: bool)
    ensures
        r == text_matches(field@, *operator, value@),
{
    match value {
        Value::String(s) => match operator {
            ComparisonOperator::Equal => str_equal(field, s.as_str()),
            ComparisonOperator::NotEqual => !str_equal(field, s.as_str()),
            ComparisonOperator::Like => matches_wildcard(s.as_str(), field),
            ComparisonOperator::Contains => str_contains(field, s.as_str()),
            _ => false,
        },
        _ => false,
    }
}

/// Whether the kind of an entry satisfies a comparison.
pub fn compare_kind(is_dir: bool, operator: &ComparisonOperator, value: &Value) -> (r: bool)
    ensures
        r == kind_matches(is_dir, *operator, value@),
{
    let kind = if is_dir {
        "dir"
    } else {
        "file"
    };
    compare_text(kind, operator, value)
}

impl FSEntry {
    /// Whether the entry satisfies an optional condition.
    pub fn matches_condition(&self, condition: &Option<ConditionNode>) -> (r: bool)
        ensures
            r == condition_matches(self@, condition_view(*condition)),
    {
        match condition {
            Some(node) => self.evaluate_condition_node(node),
            None => true,
        }
    }

    /// Whether the entry satisfies a condition tree.
    pub fn evaluate_condition_node(&self, node: &ConditionNode) -> (r: bool)
        ensures
            r == node_matches(self@, node@),
        decreases node,
    {
        match node {
            ConditionNode::Leaf(condition) => self.evaluate_single_condition(
                condition.identifier.as_str(),
                &condition.operator,
                &condition.value,
            ),
            ConditionNode::Branch { left, operator, right } => {
                let left_result = self.evaluate_condition_node(left);
                let right_result = self.evaluate_condition_node(right);
                match operator {
                    LogicalOperator::And => left_result && right_result,
                    LogicalOperator::Or => left_result || right_result,
                }
            },
        }
    }

    /// Whether the entry satisfies one comparison.
    pub fn evaluate_single_condition(
        &self,
        identifier: &str,
        operator: &ComparisonOperator,
        value: &Value,
    ) -> (r: bool)
        ensures
            r == leaf_matches(
                self@,
                ConditionView { identifier: identifier@, operator: *operator, value: value@ },
            ),
    {
        match lookup_field(identifier) {
            Some(Field::Name) => self.compare_string_field(self.name.as_str(), operator, value),
            Some(Field::Path) => self.compare_string_field(self.path.as_str(), operator, value),
            Some(Field::Extension) => match &self.extension {
                Some(ext) => self.compare_string_field(ext.as_str(), operator, value),
                None => false,
            },
            Some(Field::Permissions) => self.compare_string_field(
                self.permissions.as_str(),
                operator,
                value,
            ),
            Some(Field::Size) => self.compare_size_field(self.size, operator, value),
            Some(Field::Modified) => self.compare_date_field(&self.modified, operator, value),
            Some(Field::Created) => self.compare_date_field(&self.created, operator, value),
            Some(Field::IsHidden) => compare_flag(self.is_hidden, operator, value),
            Some(Field::IsReadonly) => compare_flag(
                str_contains(self.permissions.as_str(), "readonly"),
                operator,
                value,
            ),
            Some(Field::Kind) => compare_kind(self.is_dir, operator, value),
            None => false,
        }
    }

    /// Whether a text field satisfies a comparison.
    pub fn compare_string_field(
        &self,
        field: &str,
        operator: &ComparisonOperator,
        value: &Value,
    ) -> (r: bool)
        ensures
            r == text_matches(field@, *operator, value@),
    {
        compare_text(field, operator, value)
    }

    /// Whether a size in bytes satisfies a comparison.
    pub fn compare_size_field(
        &self,
        size: u64,
        operator: &ComparisonOperator,
        value: &Value,
    ) -> (r: bool)
        ensures
            r == size_matches(size, *operator, value@),
    {
        match value {
            Value::Number(n) => compare_amount(size, operator, n, 1),
            Value::SizedNumber(n, unit) => compare_amount(
                size,
                operator,
                n,
                bytes_per_unit(unit.as_str()),
            ),
            _ => false,
        }
    }

    /// Whether a date satisfies a comparison.
    pub fn compare_date_field(
        &self,
        date: &Timestamp,
        operator: &ComparisonOperator,
        value: &Value,
    ) -> (r: bool)
        ensures
            r == date_matches(*date, *operator, value@),
    {
        match value {
            Value::String(s) => match parse_midnight(s.as_str()) {
                Some(midnight) => date_verdict(date, operator, midnight),
                None => false,
            },
            _ => false,
        }
    }
}

} // verus!
