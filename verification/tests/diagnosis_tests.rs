use lsql::{check_condition, condition_warnings, parse, ConditionNode, EvaluationWarning};

fn warning(comparison: &str) -> Option<EvaluationWarning> {
    match parse(&format!("select * from . where {}", comparison))
        .unwrap()
        .condition
    {
        Some(ConditionNode::Leaf(c)) => check_condition(&c),
        _ => panic!("expected a comparison"),
    }
}

#[test]
fn sound_comparisons_have_no_warning() {
    for c in [
        "name = \"a\"",
        "path like \"*.rs\"",
        "ext contains \"r\"",
        "permissions != \"readonly\"",
        "size >= 1.5MB",
        "size = 10",
        "size < 1tb",
        "modified < \"2024-02-29\"",
        "created = \"1999-12-31\"",
        "is_hidden = true",
        "is_readonly != false",
        "type like \"fi\"",
    ] {
        assert_eq!(warning(c), None, "{}", c);
    }
}

#[test]
fn every_warning_has_its_cause() {
    assert_eq!(warning("owner = \"me\""), Some(EvaluationWarning::UnknownField));
    assert_eq!(warning("is_dir = true"), Some(EvaluationWarning::UnknownField));
    assert_eq!(warning("name = 5"), Some(EvaluationWarning::InvalidValue));
    assert_eq!(warning("size = \"5\""), Some(EvaluationWarning::InvalidValue));
    assert_eq!(warning("modified > 2024"), Some(EvaluationWarning::InvalidValue));
    assert_eq!(warning("is_hidden = \"yes\""), Some(EvaluationWarning::InvalidValue));
    assert_eq!(warning("type = false"), Some(EvaluationWarning::InvalidValue));
    assert_eq!(warning("name < \"m\""), Some(EvaluationWarning::InvalidOperator));
    assert_eq!(warning("size like 5"), Some(EvaluationWarning::InvalidOperator));
    assert_eq!(warning("size contains 5kb"), Some(EvaluationWarning::InvalidOperator));
    assert_eq!(
        warning("created contains \"2024-01-01\""),
        Some(EvaluationWarning::InvalidOperator)
    );
    assert_eq!(warning("is_readonly > true"), Some(EvaluationWarning::InvalidOperator));
    assert_eq!(warning("type >= \"dir\""), Some(EvaluationWarning::InvalidOperator));
    assert_eq!(warning("modified > \"tomorrow\""), Some(EvaluationWarning::InvalidDate));
    assert_eq!(
        warning("modified contains \"2024-02-30\""),
        Some(EvaluationWarning::InvalidDate)
    );
    assert_eq!(warning("name like \"[\""), Some(EvaluationWarning::InvalidPattern));
    assert_eq!(warning("name = \"[\""), None);
    assert_eq!(warning("type like \"[\""), Some(EvaluationWarning::InvalidPattern));
    assert_eq!(warning("type like \"f*\""), None);
    // A unit is brought to lower case before it is looked up.
    let kelvin = lsql::Condition {
        identifier: "size".to_string(),
        operator: lsql::ComparisonOperator::GreaterThan,
        value: lsql::Value::SizedNumber(
            lsql::parser::value::parse_decimal("5").unwrap(),
            "\u{212a}B".to_string(),
        ),
    };
    assert_eq!(check_condition(&kelvin), None);
    assert_eq!(warning("size > 5furlongs"), Some(EvaluationWarning::UnknownUnit));

    assert!(EvaluationWarning::UnknownField.matches_nothing());
    assert!(EvaluationWarning::InvalidValue.matches_nothing());
    assert!(EvaluationWarning::InvalidOperator.matches_nothing());
    assert!(EvaluationWarning::InvalidDate.matches_nothing());
    assert!(!EvaluationWarning::InvalidPattern.matches_nothing());
    assert!(!EvaluationWarning::UnknownUnit.matches_nothing());
}

#[test]
fn warnings_of_a_tree_come_from_left_to_right() {
    let q = parse(
        "select * from . where (owner = \"me\" or size > 1) and (name < \"x\" or size > 2xb)",
    )
    .unwrap();
    assert_eq!(
        condition_warnings(q.condition.as_ref().unwrap()),
        vec![
            EvaluationWarning::UnknownField,
            EvaluationWarning::InvalidOperator,
            EvaluationWarning::UnknownUnit,
        ]
    );
    let q = parse("select * from . where size > 1 and ext = \"rs\"").unwrap();
    assert!(condition_warnings(q.condition.as_ref().unwrap()).is_empty());
}
