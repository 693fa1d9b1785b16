use sql_engine::parser::errors::ParseError;
use sql_engine::parser::tokenizer::{
    is_allowed_identifier_char, tokenize, tokenizer_transition, TokenizerAction, TokenizerState,
};

#[test]
fn test_tokenize_basic() {
    assert_eq!(
        vec!["select", "2", "from", "table"],
        tokenize("select 2 from table").unwrap()
    );

    assert_eq!(
        vec!["select", "2", ",", "3", ","],
        tokenize("select 2, 3,").unwrap()
    );

    assert_eq!(
        vec!["select", "\"ahoj\""],
        tokenize("select \"ahoj\"").unwrap()
    );

    assert_eq!(
        vec!["insert", "\"\u{1F60E}\"", ",", "2", "into", "my_table"],
        tokenize("insert \"\u{1F60E}\", 2 into my_table").unwrap()
    );

    assert_eq!(
        vec!["select", "\"ahoj\\\"\""],
        tokenize("select \"ahoj\\\"\"").unwrap()
    );
}

#[test]
fn test_tokenize_errors() {
    assert!(tokenize("insert \"").is_err());
}

#[test]
fn tokenizer_test_delete() {
    assert_eq!(
        vec!["delete", "from", "my_table"],
        tokenize("delete from my_table").unwrap()
    );

    assert_eq!(
        vec!["delete", "from", "my_table", "where", "x", "=", "40.0"],
        tokenize("delete from my_table where x = 40.0").unwrap()
    );
}

#[test]
fn test_plus_minus() {
    assert_eq!(
        vec!["select", "x", "-", "a", "from", "my_table"],
        tokenize("select x - a from my_table").unwrap()
    );

    assert_eq!(
        vec!["select", "x", "+", "a", "as", "res", "from", "my_table"],
        tokenize("select x + a as res from my_table").unwrap()
    );

    assert_eq!(vec!["where", "x", "+", "4"], tokenize("where x+4").unwrap());

    assert_eq!(
        vec!["where", "x", "=", "-", "4"],
        tokenize("where x=-4").unwrap()
    );

    assert_eq!(
        vec!["where", "x", "-", "4", "=", "5"],
        tokenize("where x-4=5").unwrap()
    );
}

#[test]
fn test_multiple_spaces() {
    assert_eq!(vec!["select", "ahoj"], tokenize("select ahoj").unwrap());

    assert_eq!(
        vec!["select", "ahoj"],
        tokenize("select      ahoj").unwrap()
    );
}

#[test]
fn test_parenthesis() {
    assert_eq!(
        vec!["where", "(", "x", "=", "-", "4", ")"],
        tokenize("where (x = -4)").unwrap()
    );
}

#[test]
fn test_tokenize_without_spaces() {
    assert_eq!(vec!["where", "x", "=", "4"], tokenize("where x=4").unwrap());

    assert_eq!(
        vec!["where", "x", ">=", "4"],
        tokenize("where x>=4").unwrap()
    );

    assert_eq!(
        vec!["where", "x", ">=", ">", "44"],
        tokenize("where x >=> 44").unwrap()
    );

    assert_eq!(
        vec!["where", "x", "!", ">", "44"],
        tokenize("where x !> 44").unwrap()
    );

    assert_eq!(
        vec!["where", "x", "<>", "44"],
        tokenize("where x<>44").unwrap()
    );
}

#[test]
fn test_exclamation_mark() {
    assert_eq!(vec!["!", "abc"], tokenize("!abc").unwrap());
    assert_eq!(vec!["!", "abc"], tokenize("! abc").unwrap());
}

#[test]
fn tokenizer_test_insert() {
    let expr = "INSERT INTO films VALUES ('UA502', 'Bananas', 105, '1971-07-13', 'Comedy', '82 minutes')";
    let expected = vec![
        "INSERT",
        "INTO",
        "films",
        "VALUES",
        "(",
        "'UA502'",
        ",",
        "'Bananas'",
        ",",
        "105",
        ",",
        "'1971-07-13'",
        ",",
        "'Comedy'",
        ",",
        "'82 minutes'",
        ")",
    ];

    assert_eq!(expected, tokenize(expr).unwrap());
}

#[test]
fn test_insert_specified_columns() {
    let expr = "INSERT INTO films (code, title, did, date_prod, kind) VALUES ('T_601', 'Yojimbo', 106, '1961-06-16', 'Drama');";
    let expected = vec![
        "INSERT",
        "INTO",
        "films",
        "(",
        "code",
        ",",
        "title",
        ",",
        "did",
        ",",
        "date_prod",
        ",",
        "kind",
        ")",
        "VALUES",
        "(",
        "'T_601'",
        ",",
        "'Yojimbo'",
        ",",
        "106",
        ",",
        "'1961-06-16'",
        ",",
        "'Drama'",
        ")",
        ";",
    ];

    assert_eq!(expected, tokenize(expr).unwrap());
}

#[test]
fn tokenizer_empty_input_has_no_lexemes() {
    assert!(tokenize("").unwrap().is_empty());
    assert!(tokenize("    ").unwrap().is_empty());
}

#[test]
fn tokenizer_backslash_outside_literal_is_invalid() {
    match tokenize("select \\x") {
        Err(ParseError::InvalidChar(c, pos)) => {
            assert_eq!(c, '\\');
            assert_eq!(pos, 7);
        }
        other => panic!("unexpected result {:?}", other),
    }
}

#[test]
fn tokenizer_char_after_literal_must_separate() {
    match tokenize("select 'a'b") {
        Err(ParseError::InvalidChar(c, pos)) => {
            assert_eq!(c, 'b');
            assert_eq!(pos, 10);
        }
        other => panic!("unexpected result {:?}", other),
    }
    assert_eq!(vec!["(", "'a'", ")"], tokenize("('a')").unwrap());
}

#[test]
fn tokenizer_unfinished_literal_keeps_its_text() {
    match tokenize("insert \"abc") {
        Err(ParseError::UnfinishedStringLiteral(s)) => assert_eq!(s, "\"abc"),
        other => panic!("unexpected result {:?}", other),
    }
    match tokenize("x 'abc\\") {
        Err(ParseError::UnfinishedStringLiteral(s)) => assert_eq!(s, "'abc\\"),
        other => panic!("unexpected result {:?}", other),
    }
}

#[test]
fn tokenizer_literal_closes_on_its_own_quote() {
    assert_eq!(vec!["\"it's\""], tokenize("\"it's\"").unwrap());
    assert_eq!(vec!["'say \"hi\"'"], tokenize("'say \"hi\"'").unwrap());
}

#[test]
fn tokenizer_comparison_at_end_is_a_lexeme() {
    assert_eq!(vec!["x", ">"], tokenize("x>").unwrap());
    assert_eq!(vec!["x", "<="], tokenize("x<=").unwrap());
}

#[test]
fn tokenizer_rejects_control_characters() {
    assert!(matches!(
        tokenize("select\u{1}x"),
        Err(ParseError::InvalidChar('\u{1}', 6))
    ));
}

#[test]
fn white_space_of_every_kind_separates() {
    assert_eq!(
        vec!["select", "*", "from", "t", "where", "x", "=", "1"],
        tokenize("select\t*\nfrom\r\n t\u{a0}where\u{3000}x\u{2003}=\u{b}1\u{c}").unwrap()
    );
    for c in ['\u{0}', '\u{8}', '\u{e}', '\u{1f}', '\u{7f}', '\u{84}', '\u{200b}', '\u{feff}'] {
        assert!(!c.is_whitespace());
        assert!(tokenize(&format!("a{}b", c)).is_err(), "char {:?}", c);
    }
    for code in 0..0x3100u32 {
        if let Some(c) = char::from_u32(code) {
            assert_eq!(
                tokenizer_transition(TokenizerState::Normal, c, None, false).1
                    == TokenizerAction::EndLexeme,
                c.is_whitespace(),
                "char {:?}",
                c
            );
        }
    }
}

#[test]
fn transition_table() {
    let normal = TokenizerState::Normal;
    assert_eq!(
        tokenizer_transition(normal, ' ', Some('x'), false),
        (normal, TokenizerAction::EndLexeme)
    );
    assert_eq!(
        tokenizer_transition(normal, ',', None, true),
        (normal, TokenizerAction::EndLexemeAndMark)
    );
    assert_eq!(
        tokenizer_transition(normal, '<', Some('>'), true),
        (TokenizerState::TwoCharOp, TokenizerAction::Continue)
    );
    assert_eq!(
        tokenizer_transition(normal, '<', Some('<'), true),
        (normal, TokenizerAction::EndLexemeAndMark)
    );
    assert_eq!(
        tokenizer_transition(normal, '!', None, true),
        (normal, TokenizerAction::EndLexemeAndMark)
    );
    assert_eq!(
        tokenizer_transition(normal, '\'', None, true),
        (TokenizerState::InString('\''), TokenizerAction::Continue)
    );
    assert_eq!(
        tokenizer_transition(normal, 'a', None, true),
        (normal, TokenizerAction::Continue)
    );
    assert_eq!(
        tokenizer_transition(normal, 'a', None, false),
        (normal, TokenizerAction::Reject)
    );
    assert_eq!(
        tokenizer_transition(normal, '\\', None, true),
        (normal, TokenizerAction::Reject)
    );
    let inside = TokenizerState::InString('"');
    assert_eq!(
        tokenizer_transition(inside, '\'', Some('x'), true),
        (inside, TokenizerAction::Continue)
    );
    assert_eq!(
        tokenizer_transition(inside, '\\', Some('"'), true),
        (TokenizerState::EscapedInString('"'), TokenizerAction::Continue)
    );
    assert_eq!(
        tokenizer_transition(TokenizerState::EscapedInString('"'), '"', None, true),
        (inside, TokenizerAction::Continue)
    );
    assert_eq!(
        tokenizer_transition(inside, '"', Some(')'), true),
        (normal, TokenizerAction::EndLiteral)
    );
    assert_eq!(
        tokenizer_transition(inside, '"', None, true),
        (normal, TokenizerAction::EndLiteral)
    );
    assert_eq!(
        tokenizer_transition(inside, '"', Some('-'), true),
        (normal, TokenizerAction::RejectNext)
    );
    assert_eq!(
        tokenizer_transition(TokenizerState::TwoCharOp, '=', None, true),
        (normal, TokenizerAction::EndLexemeAndOperator)
    );
    assert!(is_allowed_identifier_char('a'));
    assert!(is_allowed_identifier_char('9'));
    assert!(is_allowed_identifier_char('\u{e9}'));
    assert!(is_allowed_identifier_char('*'));
    assert!(is_allowed_identifier_char('~'));
    assert!(!is_allowed_identifier_char('\n'));
    assert!(!is_allowed_identifier_char('\u{7f}'));
}
