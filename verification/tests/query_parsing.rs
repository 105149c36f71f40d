use lsql::{ConditionNode, LSQLParser, LogicalOperator, OrderDirection, QueryType, SelectionType};

#[test]
fn test_basic_query() {
    let query = "select * from .;";
    let result = LSQLParser::parse_query(query).unwrap();

    assert!(matches!(result.selection, SelectionType::All));
    assert_eq!(result.path, ".");
    assert!(result.condition.is_none());
}

#[test]
fn test_files_only_query() {
    let query = "select type from /tmp;";
    let result = LSQLParser::parse_query(query).unwrap();

    if let SelectionType::Fields(fields) = &result.selection {
        assert_eq!(fields.len(), 1);
        assert_eq!(fields[0], "type");
    } else {
        panic!("Expected Fields selection");
    }
    assert_eq!(result.path, "/tmp");
}

#[test]
fn test_directories_only_query() {
    let query = "select type from /home;";
    let result = LSQLParser::parse_query(query).unwrap();

    if let SelectionType::Fields(fields) = &result.selection {
        assert_eq!(fields.len(), 1);
        assert_eq!(fields[0], "type");
    } else {
        panic!("Expected Fields selection");
    }
    assert_eq!(result.path, "/home");
}

#[test]
fn test_field_list_selection() {
    let query = "select name, size, ext from .;";
    let result = LSQLParser::parse_query(query).unwrap();

    if let SelectionType::Fields(fields) = &result.selection {
        assert_eq!(fields.len(), 3);
        assert!(fields.contains(&"name".to_string()));
        assert!(fields.contains(&"size".to_string()));
        assert!(fields.contains(&"ext".to_string()));
    } else {
        panic!("Expected Fields selection");
    }
}

#[test]
fn test_quoted_path() {
    let query = "select * from \"path with spaces\";";
    let result = LSQLParser::parse_query(query).unwrap();

    assert_eq!(result.path, "path with spaces");
}

#[test]
fn test_optional_semicolon() {
    // With semicolon
    let query_with_semicolon = "select * from .;";
    let result_with_semicolon = LSQLParser::parse_query(query_with_semicolon);
    assert!(result_with_semicolon.is_ok());

    // Without semicolon
    let query_without_semicolon = "select * from .";
    let result_without_semicolon = LSQLParser::parse_query(query_without_semicolon);
    assert!(result_without_semicolon.is_ok());

    // With condition and with semicolon
    let query_cond_with_semicolon = "select * from . where name = \"test\";";
    let result_cond_with_semicolon = LSQLParser::parse_query(query_cond_with_semicolon);
    assert!(result_cond_with_semicolon.is_ok());

    // With condition and without semicolon
    let query_cond_without_semicolon = "select * from . where name = \"test\"";
    let result_cond_without_semicolon = LSQLParser::parse_query(query_cond_without_semicolon);
    assert!(result_cond_without_semicolon.is_ok());
}

#[test]
fn test_invalid_queries() {
    // Incomplete query (missing from clause)
    let query1 = "select *";
    let result1 = LSQLParser::parse_query(query1);
    assert!(
        result1.is_err(),
        "Query without FROM clause should be invalid"
    );

    // Completely invalid syntax with missing required elements
    let query2 = "selecty & fromy $ wherey @";
    let result2 = LSQLParser::parse_query(query2);
    assert!(result2.is_err(), "Gibberish query should be invalid");
}

#[test]
fn test_complex_query() {
    let query = "select type from . where (size > 1mb and is_hidden = false) or ext = \"pdf\";";
    let result = LSQLParser::parse_query(query).unwrap();

    // Test selection is type field
    if let SelectionType::Fields(fields) = &result.selection {
        assert_eq!(fields.len(), 1);
        assert_eq!(fields[0], "type");
    } else {
        panic!("Expected Fields selection");
    }

    // Test path is current directory
    assert_eq!(result.path, ".");

    // Verify that we have a condition
    assert!(result.condition.is_some());

    // Check for a branch with OR at the top level
    let top_level_or = match &result.condition {
        Some(ConditionNode::Branch { operator, .. }) => {
            matches!(operator, LogicalOperator::Or)
        }
        _ => false,
    };

    assert!(top_level_or, "Expected a top-level OR branch");
}

#[test]
fn test_limit_clause() {
    // Basic limit clause
    let query = "select * from . limit 5;";
    let result = LSQLParser::parse_query(query).unwrap();

    assert!(result.limit.is_some());
    let limit = result.limit.unwrap();
    assert_eq!(limit, 5);

    // Test with a condition and limit
    let query_with_condition = "select type from . where size > 1mb limit 10;";
    let result_with_condition = LSQLParser::parse_query(query_with_condition).unwrap();

    assert!(result_with_condition.limit.is_some());
    let limit_with_condition = result_with_condition.limit.unwrap();
    assert_eq!(limit_with_condition, 10);

    // Test with zero limit
    let query_zero_limit = "select * from . limit 0;";
    let result_zero_limit = LSQLParser::parse_query(query_zero_limit).unwrap();

    assert!(result_zero_limit.limit.is_some());
    let zero_limit = result_zero_limit.limit.unwrap();
    assert_eq!(zero_limit, 0);

    // Test with large limit
    let query_large_limit = "select * from . limit 1000000;";
    let result_large_limit = LSQLParser::parse_query(query_large_limit).unwrap();

    assert!(result_large_limit.limit.is_some());
    let large_limit = result_large_limit.limit.unwrap();
    assert_eq!(large_limit, 1000000);

    // Test without limit clause
    let query_no_limit = "select * from .;";
    let result_no_limit = LSQLParser::parse_query(query_no_limit).unwrap();

    assert!(result_no_limit.limit.is_none());
}

#[test]
fn test_delete_query() {
    let query = "delete first from .;";
    let result = LSQLParser::parse_query(query).unwrap();

    assert_eq!(result.query_type, QueryType::Delete);
    assert!(matches!(result.selection, SelectionType::All));
    assert_eq!(result.path, ".");
    assert!(result.condition.is_none());
    assert!(result.limit.is_some());
    assert_eq!(result.limit.unwrap(), 1);
}

#[test]
fn test_delete_files_query() {
    let query = "delete many from /tmp;";
    let result = LSQLParser::parse_query(query).unwrap();

    assert_eq!(result.query_type, QueryType::Delete);
    assert!(matches!(result.selection, SelectionType::All));
    assert_eq!(result.path, "/tmp");
    assert!(result.limit.is_none());
}

#[test]
fn test_delete_with_condition() {
    let query = "delete first from . where ext = \"tmp\";";
    let result = LSQLParser::parse_query(query).unwrap();

    assert_eq!(result.query_type, QueryType::Delete);
    assert!(matches!(result.selection, SelectionType::All));
    assert_eq!(result.path, ".");
    assert!(result.condition.is_some());
    assert!(result.limit.is_some());
    assert_eq!(result.limit.unwrap(), 1);
}

#[test]
fn test_delete_with_limit() {
    let query = "delete many 5 from .;";
    let result = LSQLParser::parse_query(query).unwrap();

    assert_eq!(result.query_type, QueryType::Delete);
    assert!(matches!(result.selection, SelectionType::All));
    assert_eq!(result.path, ".");
    assert!(result.limit.is_some());
    assert_eq!(result.limit.unwrap(), 5);
}

#[test]
fn test_delete_recursive() {
    let query = "delete recursive many from .;";

    let result = LSQLParser::parse_query(query).unwrap();

    assert_eq!(result.query_type, QueryType::Delete);
    assert!(matches!(result.selection, SelectionType::All));
    assert_eq!(result.path, ".");
    assert!(result.condition.is_none());
    assert!(result.is_recursive, "Query should be recursive");
}

#[test]
fn test_delete_with_shorthand_recursive() {
    let query = "delete r first from .;";
    let result = LSQLParser::parse_query(query).unwrap();

    assert_eq!(result.query_type, QueryType::Delete);
    assert!(matches!(result.selection, SelectionType::All));
    assert_eq!(result.path, ".");
    assert!(result.condition.is_none());
    assert!(
        result.is_recursive,
        "Query should be recursive with shorthand 'r'"
    );
    assert!(result.limit.is_some());
    assert_eq!(result.limit.unwrap(), 1);
}

#[test]
fn test_delete_recursive_with_condition() {
    let query = "delete recursive many 10 from . where ext = \"tmp\";";
    let result = LSQLParser::parse_query(query).unwrap();

    assert_eq!(result.query_type, QueryType::Delete);
    assert!(matches!(result.selection, SelectionType::All));
    assert_eq!(result.path, ".");
    assert!(result.condition.is_some());
    assert!(result.is_recursive, "Query should be recursive");
    assert!(result.limit.is_some());
    assert_eq!(result.limit.unwrap(), 10);
}

#[test]
fn test_order_by_clause() {
    let query = "select type from . where size > 1mb order by modified desc limit 10;";
    let result = LSQLParser::parse_query(query).unwrap();

    // Check selection
    if let SelectionType::Fields(fields) = &result.selection {
        assert_eq!(fields.len(), 1);
        assert_eq!(fields[0], "type");
    } else {
        panic!("Expected Fields selection");
    }

    // Check path
    assert_eq!(result.path, ".");

    // Check condition
    assert!(result.condition.is_some());

    // Check order by
    assert!(!result.order_by.is_empty());
    assert_eq!(result.order_by.len(), 1);
    assert_eq!(result.order_by[0].field, "modified");
    assert_eq!(result.order_by[0].direction, OrderDirection::Descending);

    // Check limit
    assert!(result.limit.is_some());
    assert_eq!(result.limit.unwrap(), 10);
}
