use lsql::statements::{parse, try_parse, where_clause_of};
use lsql::{where_clause_to_enum, Command, ResultOrder, WhereClause, WhereType};

fn select(props: &[&str]) -> Command {
    Command::Select {
        props: props.iter().map(|s| s.to_string()).collect(),
        where_clause: None,
        order_by: None,
        limit: None,
        from_path: None,
        ordering: None,
    }
}

#[test]
fn test_select_statement() {
    let input = "SELECT * WHERE name = 'file_name.txt'";
    let expected = Command::Select {
        props: vec!["*".to_string()],
        where_clause: Some(vec![WhereClause::Equal(
            "name".to_string(),
            "file_name.txt".to_string(),
        )]),
        order_by: None,
        limit: None,
        from_path: None,
        ordering: None,
    };

    let result = parse(input);
    assert_eq!(result, ("", vec![expected]));
}

#[test]
fn test_cd_statement() {
    let input = "CD /path/to/dir";
    let expected = Command::ChangeDir {
        path: "/path/to/dir".to_string(),
    };

    let result = parse(input);
    assert_eq!(result, ("", vec![expected]));
}

#[test]
fn test_show_statement() {
    let input = "SHOW";
    let expected = Command::Show;

    let result = parse(input);
    assert_eq!(result, ("", vec![expected]));
}

#[test]
fn select_with_every_clause() {
    let input =
        "select name , size where size <> '10' AND name != 'x' and a < 'b' order by size, name limit 25 from /var/log.d desc ;";
    let expected = Command::Select {
        props: vec!["name".to_string(), "size".to_string()],
        where_clause: Some(vec![
            WhereClause::NotEqual("size".to_string(), "10".to_string()),
            WhereClause::NotEqual("name".to_string(), "x".to_string()),
            WhereClause::LessThan("a".to_string(), "b".to_string()),
        ]),
        order_by: Some(vec!["size".to_string(), "name".to_string()]),
        limit: Some(25),
        from_path: Some("/var/log.d".to_string()),
        ordering: Some(ResultOrder::Descending),
    };
    assert_eq!(parse(input), (";", vec![expected]));
}

#[test]
fn clauses_out_of_order_are_left_unread() {
    // FROM stands before WHERE: the WHERE is no longer looked for.
    let (rest, commands) = parse("SELECT * FROM /tmp WHERE a = 'b'");
    assert_eq!(rest, "WHERE a = 'b'");
    assert_eq!(
        commands,
        vec![Command::Select {
            props: vec!["*".to_string()],
            where_clause: None,
            order_by: None,
            limit: None,
            from_path: Some("/tmp".to_string()),
            ordering: None,
        }]
    );
    // ORDER without BY is not read at all.
    let (rest, commands) = parse("select * order size");
    assert_eq!(rest, "order size");
    assert_eq!(commands, vec![select(&["*"])]);
    // LIMIT without a number neither.
    let (rest, commands) = parse("select * limit x");
    assert_eq!(rest, "limit x");
    assert_eq!(commands, vec![select(&["*"])]);
}

#[test]
fn lists_end_before_a_separator_that_nothing_follows() {
    let (rest, commands) = parse("select a, b, ; show");
    assert_eq!(rest, ", ; show");
    assert_eq!(commands, vec![select(&["a", "b"])]);
    // A keyword is a name like any other.
    let (rest, commands) = parse("select a, b, from x");
    assert_eq!(rest, "x");
    assert_eq!(commands, vec![select(&["a", "b", "from"])]);

    let (rest, commands) = parse("show ; show;cd x ; bogus");
    assert_eq!(rest, "; bogus");
    assert_eq!(
        commands,
        vec![
            Command::Show,
            Command::Show,
            Command::ChangeDir {
                path: "x".to_string()
            }
        ]
    );

    let (rest, commands) = parse("exists a = 'b' and c > 'd' and e");
    assert_eq!(rest, "and e");
    assert_eq!(
        commands,
        vec![Command::Exists {
            where_clause: vec![
                WhereClause::Equal("a".to_string(), "b".to_string()),
                WhereClause::GreaterThan("c".to_string(), "d".to_string()),
            ]
        }]
    );
}

#[test]
fn what_is_no_statement_is_left_as_it_is() {
    assert_eq!(parse(""), ("", vec![]));
    assert_eq!(parse("  delete x"), ("  delete x", vec![]));
    assert_eq!(parse("  show  "), ("", vec![Command::Show]));
    assert_eq!(parse("SHOWx"), ("x", vec![Command::Show]));
    // The keywords need no white space behind them.
    assert_eq!(parse("selectname"), ("", vec![select(&["name"])]));
    assert_eq!(parse("select"), ("", vec![select(&[])]));
    assert_eq!(
        parse("changedir ../up"),
        (
            "",
            vec![Command::ChangeDir {
                path: "../up".to_string()
            }]
        )
    );
    assert_eq!(
        parse("cd"),
        (
            "",
            vec![Command::ChangeDir {
                path: String::new()
            }]
        )
    );
    assert_eq!(
        parse("cd ~"),
        (
            "~",
            vec![Command::ChangeDir {
                path: String::new()
            }]
        )
    );
    assert_eq!(
        parse("exists"),
        (
            "",
            vec![Command::Exists {
                where_clause: vec![]
            }]
        )
    );
}

#[test]
fn operators_are_tried_in_order() {
    // `<` is found before `<=` is tried, and no value follows it.
    let (rest, commands) = parse("exists a <= 'b'");
    assert_eq!(rest, "a <= 'b'");
    assert_eq!(
        commands,
        vec![Command::Exists {
            where_clause: vec![]
        }]
    );
    assert_eq!(
        where_clause_of("a", "<=", "b"),
        WhereClause::LessThanOrEqual("a".to_string(), "b".to_string())
    );
    assert_eq!(
        where_clause_of("a", ">=", "b"),
        WhereClause::GreaterThanOrEqual("a".to_string(), "b".to_string())
    );
    assert_eq!(
        where_clause_of("a", "~", "b"),
        WhereClause::UnknownOperator("a".to_string(), "b".to_string())
    );
    assert_eq!(
        where_clause_to_enum(Some(vec![("a", "=", "1"), ("b", "<>", "2"), ("c", "like", "3")])),
        Some(vec![
            WhereClause::Equal("a".to_string(), "1".to_string()),
            WhereClause::NotEqual("b".to_string(), "2".to_string()),
            WhereClause::UnknownOperator("c".to_string(), "3".to_string()),
        ])
    );
    assert_eq!(where_clause_to_enum(None), None);
    assert_eq!(where_clause_to_enum(Some(vec![])), Some(vec![]));
    let kept = WhereType::Conditions(vec![("a", "=", "1")]);
    assert_eq!(kept, WhereType::Conditions(vec![("a", "=", "1")]));
}

#[test]
fn a_limit_that_is_no_number_cannot_be_read() {
    assert_eq!(try_parse("select * limit 99999999999999999999999"), None);
    assert_eq!(try_parse("show; select * limit ٣"), None);
    assert_eq!(
        try_parse("select * limit 18446744073709551615").map(|(rest, _)| rest),
        Some("")
    );
    assert_eq!(
        try_parse("select * limit 007"),
        Some((
            "",
            vec![Command::Select {
                props: vec!["*".to_string()],
                where_clause: None,
                order_by: None,
                limit: Some(7),
                from_path: None,
                ordering: None,
            }]
        ))
    );
    assert_eq!(try_parse("show"), Some(("", vec![Command::Show])));
}

#[test]
fn names_hold_letters_of_any_script() {
    assert_eq!(parse("select größe, имя"), ("", vec![select(&["größe", "имя"])]));
    let (rest, commands) = parse("cd /данные/x-1");
    assert_eq!(rest, "-1");
    assert_eq!(
        commands,
        vec![Command::ChangeDir {
            path: "/данные/x".to_string()
        }]
    );
}
