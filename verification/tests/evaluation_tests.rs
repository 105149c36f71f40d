use lsql::decimal::Comparison;
use lsql::filter::{date_verdict, like_outcome, matches_wildcard, wildcard_to_regex};
use lsql::parser::value::parse_decimal;
use lsql::{
    includes, parse, ComparisonOperator, Condition, ConditionNode, FSEntry, FileType,
    LogicalOperator, SelectionType, Timestamp, Value,
};

fn file(name: &str, size: u64) -> FSEntry {
    let extension = name.rsplit_once('.').map(|(_, ext)| ext.to_string());
    FSEntry::new(
        name.to_string(),
        format!("/data/{}", name),
        size,
        false,
        true,
        Timestamp::new(1_700_000_000, 0),
        Timestamp::new(1_600_000_000, 0),
        extension,
        "readwrite".to_string(),
    )
}

fn dir(name: &str) -> FSEntry {
    FSEntry::new(
        name.to_string(),
        format!("/data/{}", name),
        0,
        true,
        false,
        Timestamp::new(1_700_000_000, 0),
        Timestamp::new(1_600_000_000, 0),
        None,
        "readonly".to_string(),
    )
}

fn leaf(identifier: &str, operator: ComparisonOperator, value: Value) -> ConditionNode {
    ConditionNode::Leaf(Condition {
        identifier: identifier.to_string(),
        operator,
        value,
    })
}

fn text(s: &str) -> Value {
    Value::String(s.to_string())
}

fn number(s: &str) -> Value {
    Value::Number(parse_decimal(s).unwrap())
}

fn sized(s: &str, unit: &str) -> Value {
    Value::SizedNumber(parse_decimal(s).unwrap(), unit.to_string())
}

fn holds(entry: &FSEntry, query: &str) -> bool {
    let q = parse(&format!("select * from . where {}", query)).unwrap();
    entry.matches_condition(&q.condition)
}

#[test]
fn no_condition_matches_everything() {
    assert!(file("a.txt", 1).matches_condition(&None));
    assert!(dir("d").matches_condition(&None));
}

#[test]
fn and_is_conjunction_or_is_disjunction() {
    let entries = [file("a.txt", 10), file("b.rs", 2000), dir("src")];
    let conditions = [
        leaf("ext", ComparisonOperator::Equal, text("txt")),
        leaf("size", ComparisonOperator::GreaterThan, number("100")),
        leaf("type", ComparisonOperator::Equal, text("dir")),
        leaf("nothing", ComparisonOperator::Equal, text("x")),
    ];
    for e in &entries {
        for c1 in &conditions {
            for c2 in &conditions {
                let both = ConditionNode::Branch {
                    left: Box::new(c1.clone()),
                    operator: LogicalOperator::And,
                    right: Box::new(c2.clone()),
                };
                let either = ConditionNode::Branch {
                    left: Box::new(c1.clone()),
                    operator: LogicalOperator::Or,
                    right: Box::new(c2.clone()),
                };
                let m1 = e.evaluate_condition_node(c1);
                let m2 = e.evaluate_condition_node(c2);
                assert_eq!(e.evaluate_condition_node(&both), m1 && m2);
                assert_eq!(e.evaluate_condition_node(&either), m1 || m2);
            }
        }
    }
}

#[test]
fn sizes_compare_exactly() {
    let e = file("a.bin", 512);
    assert!(holds(&e, "size = 0.5kb"));
    assert!(holds(&e, "size = 0.50000KB"));
    assert!(holds(&e, "size >= 0.5kb"));
    assert!(holds(&e, "size <= 0.5kb"));
    assert!(!holds(&e, "size != 0.5kb"));
    assert!(!holds(&e, "size < 0.5kb"));
    assert!(!holds(&e, "size > 0.5kb"));
    assert!(holds(&e, "size > 0.4999999999999999999999999999kb"));
    assert!(holds(&e, "size < 0.5000000000000000000000000001kb"));
    assert!(!holds(&e, "size <= 0.4999999999999999999999999999kb"));
    assert!(!holds(&e, "size >= 0.5000000000000000000000000001kb"));
    assert!(holds(&e, "size = 512"));
    assert!(holds(&e, "size = 512.000"));
    assert!(holds(&e, "size = 512b"));
    assert!(holds(&e, "size < 513"));
    assert!(holds(&e, "size < 99999999999999999999999999999999999"));
    assert!(holds(&e, "size > 511.999999"));
    // An unknown unit counts bytes.
    assert!(holds(&e, "size = 512zz"));
    // A unit is brought to lower case before it is looked up.
    let kelvin = Value::SizedNumber(parse_decimal("0.5").unwrap(), "\u{212a}B".to_string());
    assert!(e.evaluate_condition_node(&leaf("size", ComparisonOperator::Equal, kelvin)));

    let big = file("big.iso", 3 * 1024 * 1024 * 1024);
    assert!(holds(&big, "size = 3gb"));
    assert!(holds(&big, "size = 3072mb"));
    assert!(holds(&big, "size > 2.999999gb"));
    assert!(holds(&big, "size < 1tb"));
    assert!(holds(&big, "size < 0.003tb"));
    assert!(holds(&big, "size > 0.0029tb"));

    let largest = file("max", u64::MAX);
    assert!(holds(&largest, "size = 18446744073709551615"));
    assert!(holds(&largest, "size < 18446744073709551616"));
    assert!(holds(&largest, "size < 16777216tb"));
    assert!(holds(&largest, "size > 16777215.99999tb"));

    let empty = file("none", 0);
    assert!(holds(&empty, "size = 0"));
    assert!(holds(&empty, "size = 0.0tb"));
    assert!(holds(&empty, "size < 0.0000001"));
}

#[test]
fn equality_of_sizes_has_a_tolerance() {
    // Two to the power minus fifty-two is a little above 2.22e-16.
    let e = file("a.bin", 1024);
    assert!(holds(&e, "size = 1024"));
    assert!(holds(&e, "size = 1023.9999999999999999"));
    assert!(holds(&e, "size = 1023.9999999999999998"));
    assert!(!holds(&e, "size = 1023.9999999999999997"));
    assert!(!holds(&e, "size = 1023.999999999999999"));
    assert!(holds(&e, "size = 1024.0000000000000002"));
    assert!(!holds(&e, "size = 1024.0000000000000003"));
    assert!(!holds(&e, "size != 1024.0000000000000002"));
    assert!(holds(&e, "size != 1024.0000000000000003"));
    assert!(holds(&e, "size != 1025"));
    assert!(!holds(&e, "size = 1025"));
    assert!(!holds(&e, "size = 1023"));
    // Within the tolerance of a step of the unit, from below and above.
    assert!(holds(&e, "size = 0.9999999999999999999999kb"));
    assert!(holds(&e, "size = 1.0000000000000000000001kb"));
    assert!(!holds(&e, "size = 0.9999999999999kb"));
    assert!(!holds(&e, "size = 1.0000000000001kb"));
    // The other operators compare exactly.
    assert!(holds(&e, "size > 1023.9999999999999999"));
    assert!(!holds(&e, "size <= 1023.9999999999999999"));
    assert!(holds(&e, "size < 1024.0000000000000002"));
    assert!(!holds(&e, "size >= 1024.0000000000000002"));

    let nothing = file("none", 0);
    assert!(holds(&nothing, "size = 0.0000000000000002"));
    assert!(!holds(&nothing, "size = 0.0000000000000003"));
    assert!(!holds(&nothing, "size = 1"));

    let half = parse_decimal("0.5").unwrap();
    assert!(half.equals_scaled(512, 1024));
    assert!(!half.equals_scaled(511, 1024));
    assert!(!half.equals_scaled(513, 1024));
    assert!(half.equals_scaled(0, 0));
    assert!(!half.equals_scaled(1, 0));
    assert!(!half.equals_scaled(0, 1));
    assert!(half.equals_scaled(u64::MAX / 2 + 1, u64::MAX) == false);
    let wide = parse_decimal("99999999999999999999999999").unwrap();
    assert!(!wide.equals_scaled(u64::MAX, 1));
}

#[test]
fn size_refuses_what_is_no_number_and_no_ordering() {
    let e = file("a.bin", 512);
    assert!(!holds(&e, "size = \"512\""));
    assert!(!holds(&e, "size = true"));
    assert!(!holds(&e, "size like 512"));
    assert!(!holds(&e, "size contains 5"));
}

#[test]
fn scaled_comparison_is_three_way() {
    let half = parse_decimal("0.5").unwrap();
    assert_eq!(half.compare_scaled(511, 1024), Comparison::Less);
    assert_eq!(half.compare_scaled(512, 1024), Comparison::Equal);
    assert_eq!(half.compare_scaled(513, 1024), Comparison::Greater);
    assert_eq!(half.compare_scaled(0, 0), Comparison::Equal);
    assert_eq!(half.compare_scaled(1, 0), Comparison::Greater);
    assert_eq!(half.compare_scaled(0, 1), Comparison::Less);
    let third = parse_decimal("0.333").unwrap();
    assert_eq!(third.compare_scaled(333, 1000), Comparison::Equal);
    assert_eq!(third.compare_scaled(1, 3), Comparison::Greater);
    assert_eq!(third.compare_scaled(0, 3), Comparison::Less);
    let wide = parse_decimal("18446744073709551615.9").unwrap();
    assert_eq!(wide.compare_scaled(u64::MAX, 1), Comparison::Less);
    assert_eq!(wide.compare_scaled(u64::MAX, u64::MAX), Comparison::Less);
}

#[test]
fn text_fields_compare_by_their_operators() {
    let e = file("report_2024.pdf", 10);
    assert!(holds(&e, "name = \"report_2024.pdf\""));
    assert!(!holds(&e, "name = \"report\""));
    assert!(holds(&e, "name != \"report\""));
    assert!(holds(&e, "name contains \"2024\""));
    assert!(holds(&e, "name contains \"\""));
    assert!(!holds(&e, "name contains \"2025\""));
    assert!(holds(&e, "path contains \"/data/\""));
    assert!(holds(&e, "ext = \"pdf\""));
    assert!(holds(&e, "permissions = \"readwrite\""));
    // No ordering on text, and no number or flag where text is due.
    assert!(!holds(&e, "name > \"a\""));
    assert!(!holds(&e, "name <= \"z\""));
    assert!(!holds(&e, "name = 5"));
    assert!(!holds(&e, "name = true"));
}

#[test]
fn like_translates_wildcards_to_an_anchored_expression() {
    assert_eq!(wildcard_to_regex("*.rs"), "^.*.rs$");
    assert_eq!(wildcard_to_regex("a?c"), "^a.c$");
    assert_eq!(wildcard_to_regex(""), "^$");
    assert_eq!(wildcard_to_regex("é*"), "^é.*$");

    assert!(matches_wildcard("*.rs", "main.rs"));
    assert!(!matches_wildcard("*.rs", "main.rs.bak"));
    assert!(!matches_wildcard("main", "main.rs"));
    assert!(matches_wildcard("ma?n.*", "main.rs"));
    assert!(!matches_wildcard("ma?n", "man"));
    assert!(matches_wildcard("*", ""));
    // The dot of the pattern stands for any character.
    assert!(matches_wildcard("*.rs", "mainxrs"));

    let e = file("main.rs", 10);
    assert!(holds(&e, "name like \"*.rs\""));
    assert!(holds(&e, "name LIKE \"m*\""));
    assert!(!holds(&e, "name like \"*.py\""));
}

#[test]
fn like_with_an_invalid_expression_matches_only_the_empty_text() {
    assert!(!matches_wildcard("[", "main.rs"));
    assert!(!matches_wildcard("(", "("));
    assert!(matches_wildcard("[", ""));
    assert!(like_outcome(Some(true), None));
    assert!(!like_outcome(Some(false), Some(true)));
    assert!(like_outcome(None, Some(true)));
    assert!(!like_outcome(None, Some(false)));
    assert!(!like_outcome(None, None));
}

#[test]
fn extension_absent_matches_no_operator() {
    let d = dir("src");
    assert!(!holds(&d, "ext = \"\""));
    assert!(!holds(&d, "ext != \"rs\""));
    assert!(!holds(&d, "ext contains \"\""));
    assert!(!holds(&d, "ext like \"*\""));
}

#[test]
fn flags_compare_for_equality_only() {
    let hidden = file(".profile", 1);
    let plain = file("profile", 1);
    assert!(hidden.is_hidden);
    assert!(!plain.is_hidden);
    assert!(holds(&hidden, "is_hidden = true"));
    assert!(holds(&hidden, "is_hidden != false"));
    assert!(!holds(&hidden, "is_hidden = false"));
    assert!(holds(&plain, "is_hidden = false"));
    assert!(!holds(&plain, "is_hidden > false"));
    assert!(!holds(&plain, "is_hidden = \"false\""));
    assert!(!holds(&plain, "is_hidden = 0"));

    let locked = dir("locked");
    assert!(holds(&locked, "is_readonly = true"));
    assert!(!holds(&locked, "is_readonly != true"));
    assert!(holds(&plain, "is_readonly = false"));
    assert!(!holds(&plain, "is_readonly contains true"));
}

#[test]
fn kind_compares_as_text() {
    let f = file("a", 1);
    let d = dir("b");
    assert!(holds(&f, "type = \"file\""));
    assert!(holds(&d, "type = \"dir\""));
    assert!(holds(&d, "type != \"file\""));
    assert!(!holds(&f, "type like \"il\""));
    assert!(holds(&f, "type like \"*il*\""));
    assert!(holds(&f, "type like \"f?le\""));
    assert!(holds(&d, "type like \"dir\""));
    assert!(!holds(&d, "type like \"f*\""));
    assert!(holds(&f, "type contains \"il\""));
    assert!(holds(&d, "type contains \"d\""));
    assert!(!holds(&d, "type >= \"dir\""));
    assert!(!holds(&d, "type = true"));
    assert_eq!(f.file_type(), FileType::File);
    assert_eq!(d.file_type(), FileType::Directory);
    let mut other = file("socket", 0);
    other.is_file = false;
    assert_eq!(other.file_type(), FileType::Other);
    // What is neither matches the kind "file" in a condition.
    assert!(holds(&other, "type = \"file\""));
}

#[test]
fn unknown_fields_match_nothing() {
    let e = file("a", 1);
    assert!(!holds(&e, "owner = \"root\""));
    assert!(!holds(&e, "is_dir = false"));
    assert!(!holds(&e, "Name = \"a\""));
    assert!(!holds(&e, "owner != \"root\""));
}

#[test]
fn dates_stand_for_the_midnight_that_starts_the_day() {
    // 2023-11-14 22:13:20 on the local clock.
    let e = file("a", 1);
    assert!(holds(&e, "modified = \"2023-11-14\""));
    assert!(!holds(&e, "modified = \"2023-11-15\""));
    assert!(holds(&e, "modified != \"2023-11-15\""));
    assert!(holds(&e, "modified > \"2023-11-14\""));
    assert!(holds(&e, "modified >= \"2023-11-14\""));
    assert!(holds(&e, "modified < \"2023-11-15\""));
    assert!(holds(&e, "modified <= \"2023-11-15\""));
    assert!(!holds(&e, "modified < \"2023-11-14\""));
    assert!(holds(&e, "created < \"2021-01-01\""));
    assert!(holds(&e, "created = \"2020-09-13\""));
    // What is no date matches nothing, and neither does what is no string.
    assert!(!holds(&e, "modified > \"yesterday\""));
    assert!(!holds(&e, "modified != \"2023-13-01\""));
    assert!(!holds(&e, "modified > \"\""));
    assert!(!holds(&e, "modified > 2023"));
    assert!(!holds(&e, "modified like \"2023-11-14\""));
    assert!(!holds(&e, "modified contains \"2023\""));
}

#[test]
fn date_verdict_at_the_edges_of_a_day() {
    let midnight: i64 = 1_699_920_000; // 2023-11-14 00:00:00
    let at = |secs: i64, nanos: u32| Timestamp::new(secs, nanos);
    let eq = ComparisonOperator::Equal;
    let ne = ComparisonOperator::NotEqual;
    let lt = ComparisonOperator::LessThan;
    let le = ComparisonOperator::LessOrEqual;
    let gt = ComparisonOperator::GreaterThan;
    let ge = ComparisonOperator::GreaterOrEqual;

    assert!(date_verdict(&at(midnight, 0), &eq, midnight));
    assert!(date_verdict(&at(midnight + 86_399, 999_999_999), &eq, midnight));
    assert!(!date_verdict(&at(midnight + 86_400, 0), &eq, midnight));
    assert!(!date_verdict(&at(midnight - 1, 999_999_999), &eq, midnight));
    assert!(date_verdict(&at(midnight - 1, 999_999_999), &ne, midnight));

    assert!(date_verdict(&at(midnight, 0), &le, midnight));
    assert!(date_verdict(&at(midnight, 0), &ge, midnight));
    assert!(!date_verdict(&at(midnight, 0), &lt, midnight));
    assert!(!date_verdict(&at(midnight, 0), &gt, midnight));
    assert!(date_verdict(&at(midnight, 1), &gt, midnight));
    assert!(!date_verdict(&at(midnight, 1), &le, midnight));
    assert!(date_verdict(&at(midnight - 1, 999_999_999), &lt, midnight));

    // Days before 1970 are counted downwards.
    assert!(date_verdict(&at(-1, 0), &eq, -86_400));
    assert!(date_verdict(&at(-86_400, 0), &eq, -86_400));
    assert!(!date_verdict(&at(-86_401, 0), &eq, -86_400));
    assert!(!date_verdict(&at(0, 0), &eq, -86_400));
    assert!(date_verdict(&at(i64::MIN, 0), &lt, i64::MAX));
    assert!(date_verdict(&at(i64::MAX, u32::MAX), &gt, i64::MIN));

    assert!(!date_verdict(&at(midnight, 0), &ComparisonOperator::Like, midnight));
    assert!(!date_verdict(&at(midnight, 0), &ComparisonOperator::Contains, midnight));
}

#[test]
fn selections_include_by_kind_only() {
    let f = file("a", 1);
    let d = dir("b");
    let mut other = file("c", 0);
    other.is_file = false;
    let fields = SelectionType::Fields(vec!["type".to_string()]);
    for e in [&f, &d, &other] {
        assert!(includes(e, &SelectionType::All));
        assert!(includes(e, &fields));
    }
    assert!(includes(&f, &SelectionType::Files));
    assert!(!includes(&d, &SelectionType::Files));
    assert!(!includes(&other, &SelectionType::Files));
    assert!(includes(&d, &SelectionType::Directories));
    assert!(!includes(&f, &SelectionType::Directories));
    assert!(!includes(&other, &SelectionType::Directories));
}
