use lsql::tokenizer::{classify_word, is_keyword};
use lsql::{LSQLCommand, Location, Parser, Token, TokenType, Tokenizer};

fn kinds(text: &str) -> Vec<(TokenType, String)> {
    Tokenizer::new(text)
        .tokenize()
        .into_iter()
        .map(|t| (t.token_type, t.literal))
        .collect()
}

fn token(token_type: TokenType, literal: &str) -> Token {
    Token {
        token_type,
        literal: literal.to_string(),
        location: Location {
            start: 0,
            end: literal.len(),
        },
    }
}

#[test]
fn words_are_classified_by_their_shape() {
    assert_eq!(
        kinds("select name , size FROM /tmp/x where size >= 10 ( 'a' \"b\" )"),
        vec![
            (TokenType::Keyword, "select".to_string()),
            (TokenType::Identifier, "name".to_string()),
            (TokenType::Comma, ",".to_string()),
            (TokenType::Identifier, "size".to_string()),
            (TokenType::Keyword, "FROM".to_string()),
            (TokenType::Path, "/tmp/x".to_string()),
            (TokenType::Keyword, "where".to_string()),
            (TokenType::Identifier, "size".to_string()),
            (TokenType::Operator, ">=".to_string()),
            (TokenType::Literal, "10".to_string()),
            (TokenType::Parenthesis, "(".to_string()),
            (TokenType::Literal, "'a'".to_string()),
            (TokenType::Literal, "\"b\"".to_string()),
            (TokenType::Parenthesis, ")".to_string()),
        ]
    );
}

#[test]
fn words_of_no_kind_are_left_out() {
    assert_eq!(
        kinds("file_name a1 * ; cd"),
        vec![(TokenType::Keyword, "cd".to_string())]
    );
    assert_eq!(kinds(""), vec![]);
    assert_eq!(kinds(" \t\n "), vec![]);
    assert_eq!(classify_word("a_b"), None);
    assert_eq!(classify_word("a.b"), Some(TokenType::Path));
    assert_eq!(classify_word("C:\\x"), Some(TokenType::Path));
    assert_eq!(classify_word("!x"), Some(TokenType::Operator));
    assert_eq!(classify_word("=="), Some(TokenType::Operator));
    assert_eq!(classify_word(",x"), Some(TokenType::Comma));
    assert_eq!(classify_word("(a)"), Some(TokenType::Parenthesis));
    assert_eq!(classify_word("'"), Some(TokenType::Literal));
    assert_eq!(classify_word("٣"), Some(TokenType::Literal));
    assert_eq!(classify_word("é"), Some(TokenType::Identifier));
    assert_eq!(classify_word("MOVE"), Some(TokenType::Keyword));
}

#[test]
fn keywords_in_any_case() {
    for word in ["SELECT", "from", "Where", "move", "DELETE", "to", "cd"] {
        assert!(is_keyword(word), "{} is a keyword", word);
    }
    for word in ["BACK", "show", "selects", "", "limit"] {
        assert!(!is_keyword(word), "{} is no keyword", word);
    }
}

#[test]
fn a_comment_runs_to_the_end() {
    assert_eq!(
        kinds("cd /x -- go there\nselect"),
        vec![
            (TokenType::Keyword, "cd".to_string()),
            (TokenType::Path, "/x".to_string()),
        ]
    );
    assert_eq!(kinds("--x"), vec![]);
    assert_eq!(kinds("- - cd").len(), 1);
}

#[test]
fn locations_count_bytes() {
    let tokens = Tokenizer::new("é /tmp").tokenize();
    assert_eq!(tokens[0].location.start, 0);
    assert_eq!(tokens[0].location.end, 2);
    assert_eq!(tokens[1].location.end, 4);
}

#[test]
fn tokenizing_twice_gives_nothing_more() {
    let mut tokenizer = Tokenizer::new("cd /x");
    assert_eq!(tokenizer.tokenize().len(), 2);
    assert_eq!(tokenizer.tokenize().len(), 0);
}

#[test]
fn commands_from_tokens() {
    let parser = Parser::from_tokens_str("CD /path/to/dir");
    let commands = parser.walk();
    assert_eq!(commands.len(), 1);
    assert!(matches!(&commands[0], LSQLCommand::CD { to } if to == "/path/to/dir"));

    // The keyword is matched as it is written.
    assert!(Parser::from_tokens_str("cd /path").walk().is_empty());
    assert!(Parser::from_tokens_str("SELECT name FROM /x").walk().is_empty());
    assert!(Parser::from_tokens_str("").walk().is_empty());

    // A lone CD has no token to name its directory.
    assert!(Parser::from_tokens_str("CD").try_walk().is_none());
    assert!(Parser::new(vec![token(TokenType::Keyword, "CD")])
        .try_walk()
        .is_none());
    assert_eq!(
        Parser::from_tokens_str("CD /x").try_walk().map(|c| c.len()),
        Some(1)
    );
    assert_eq!(
        Parser::new(vec![token(TokenType::Keyword, "BACK")])
            .try_walk()
            .map(|c| c.len()),
        Some(1)
    );

    let parser = Parser::new(vec![
        token(TokenType::Keyword, "BACK"),
        token(TokenType::Identifier, "CD"),
        token(TokenType::Keyword, "CD"),
        token(TokenType::Keyword, "BACK"),
    ]);
    let commands = parser.walk();
    assert_eq!(commands.len(), 3);
    assert!(matches!(commands[0], LSQLCommand::BACK));
    // The directory is the token after the first one.
    assert!(matches!(&commands[1], LSQLCommand::CD { to } if to == "CD"));
    assert!(matches!(commands[2], LSQLCommand::BACK));
}
