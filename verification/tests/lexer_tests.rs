use sql_engine::parser::errors::ParseError;
use sql_engine::parser::lexer::{
    classify_lexeme, is_float_literal, is_identifier_char, lex, literal_token, parse_i32,
    LexerToken,
};

fn lexer_parse_float(s: &str) -> Option<u64> {
    s.parse::<f64>().ok().map(|f| f.to_bits())
}

#[test]
fn test_separator_in_string_literal() {
    let expr = "insert \"ahoj, dobry; vecer\" \"hello \\\" world\"";
    println!("{:?}", lex(expr, &lexer_parse_float));
}

#[test]
fn test_lex_select() {
    let expr = "select * from table_id;";
    assert_eq!(
        vec![
            LexerToken::Select,
            LexerToken::Star,
            LexerToken::From,
            LexerToken::Identifier("table_id".into()),
            LexerToken::Semicolon
        ],
        lex(expr, &lexer_parse_float).unwrap()
    );
}

#[test]
fn test_lex_insert() {
    let expr = "insert \"ahoj\", -3, nUlL, 3.0 into table_name";
    assert_eq!(
        vec![
            LexerToken::Insert,
            LexerToken::StringLiteral("ahoj".into()),
            LexerToken::Comma,
            LexerToken::Minus,
            LexerToken::NumberLiteral(3),
            LexerToken::Comma,
            LexerToken::Null,
            LexerToken::Comma,
            LexerToken::FloatNumberLiteral(3.0f64.to_bits()),
            LexerToken::Into,
            LexerToken::Identifier("table_name".into())
        ],
        lex(expr, &lexer_parse_float).unwrap()
    );
}

#[test]
fn lexer_test_insert() {
    let expr = "INSERT INTO films VALUES ('UA502', 'Bananas', 105, '1971-07-13', 'Comedy', '82 minutes')";
    assert_eq!(
        vec![
            LexerToken::Insert,
            LexerToken::Into,
            LexerToken::Identifier("films".into()),
            LexerToken::Values,
            LexerToken::ParOpen,
            LexerToken::StringLiteral("UA502".into()),
            LexerToken::Comma,
            LexerToken::StringLiteral("Bananas".into()),
            LexerToken::Comma,
            LexerToken::NumberLiteral(105),
            LexerToken::Comma,
            LexerToken::StringLiteral("1971-07-13".into()),
            LexerToken::Comma,
            LexerToken::StringLiteral("Comedy".into()),
            LexerToken::Comma,
            LexerToken::StringLiteral("82 minutes".into()),
            LexerToken::ParClose,
        ],
        lex(expr, &lexer_parse_float).unwrap()
    );
}

#[test]
fn test_insert_specify_columns() {
    let expr = "INSERT INTO films (code, title, did, date_prod, kind) VALUES ('T_601', 'Yojimbo', 106, '1961-06-16', 'Drama');";
    assert_eq!(
        vec![
            LexerToken::Insert,
            LexerToken::Into,
            LexerToken::Identifier("films".into()),
            LexerToken::ParOpen,
            LexerToken::Identifier("code".into()),
            LexerToken::Comma,
            LexerToken::Identifier("title".into()),
            LexerToken::Comma,
            LexerToken::Identifier("did".into()),
            LexerToken::Comma,
            LexerToken::Identifier("date_prod".into()),
            LexerToken::Comma,
            LexerToken::Identifier("kind".into()),
            LexerToken::ParClose,
            LexerToken::Values,
            LexerToken::ParOpen,
            LexerToken::StringLiteral("T_601".into()),
            LexerToken::Comma,
            LexerToken::StringLiteral("Yojimbo".into()),
            LexerToken::Comma,
            LexerToken::NumberLiteral(106),
            LexerToken::Comma,
            LexerToken::StringLiteral("1961-06-16".into()),
            LexerToken::Comma,
            LexerToken::StringLiteral("Drama".into()),
            LexerToken::ParClose,
            LexerToken::Semicolon,
        ],
        lex(expr, &lexer_parse_float).unwrap()
    );
}

#[test]
fn lexer_test_delete() {
    let expr = "delete from table_name where x = 1";
    assert_eq!(
        vec![
            LexerToken::Delete,
            LexerToken::From,
            LexerToken::Identifier("table_name".to_string()),
            LexerToken::Where,
            LexerToken::Identifier("x".to_string()),
            LexerToken::CompareOp("=".to_string()),
            LexerToken::NumberLiteral(1),
        ],
        lex(expr, &lexer_parse_float).unwrap()
    );
}

#[test]
fn lexer_test_create_table() {
    let expr = "create table table_name x int, y varchar";
    assert_eq!(
        vec![
            LexerToken::Create,
            LexerToken::Table,
            LexerToken::Identifier("table_name".to_string()),
            LexerToken::Identifier("x".to_string()),
            LexerToken::DataType("int".to_string()),
            LexerToken::Comma,
            LexerToken::Identifier("y".to_string()),
            LexerToken::DataType("varchar".to_string()),
        ],
        lex(expr, &lexer_parse_float).unwrap()
    );
}

#[test]
fn lexer_test_drop_table() {
    let expr = "drop table table_name";
    assert_eq!(
        vec![
            LexerToken::Drop,
            LexerToken::Table,
            LexerToken::Identifier("table_name".to_string()),
        ],
        lex(expr, &lexer_parse_float).unwrap()
    );
}

#[test]
fn lexer_test_create_index() {
    let expr = "create index column_name on table_name";
    assert_eq!(
        vec![
            LexerToken::Create,
            LexerToken::Index,
            LexerToken::Identifier("column_name".to_string()),
            LexerToken::On,
            LexerToken::Identifier("table_name".to_string()),
        ],
        lex(expr, &lexer_parse_float).unwrap()
    );
}

#[test]
fn lexer_keywords_match_without_regard_to_case() {
    assert_eq!(
        vec![
            LexerToken::Select,
            LexerToken::BoolLiteral(true),
            LexerToken::LogicalOp("and".into()),
            LexerToken::BoolLiteral(false),
            LexerToken::DataType("varchar".into()),
            LexerToken::Not,
            LexerToken::ExclamationMark,
            LexerToken::Identifier("MixedCase".into()),
        ],
        lex("SeLeCt TRUE AND False VARCHAR NOT ! MixedCase", &lexer_parse_float).unwrap()
    );
}

#[test]
fn lexer_operators_and_punctuation() {
    assert_eq!(
        vec![
            LexerToken::CompareOp("<=".into()),
            LexerToken::CompareOp("<>".into()),
            LexerToken::CompareOp("!=".into()),
            LexerToken::Star,
            LexerToken::Slash,
            LexerToken::Percent,
            LexerToken::Plus,
            LexerToken::Minus,
            LexerToken::ParOpen,
            LexerToken::ParClose,
        ],
        lex("<= <> != * / % + - ( )", &lexer_parse_float).unwrap()
    );
}

#[test]
fn lexer_rejects_invalid_identifier() {
    match lex("select a*b", &lexer_parse_float) {
        Err(ParseError::InvalidIdentifier(c, s)) => {
            assert_eq!(c, '*');
            assert_eq!(s, "a*b");
        }
        other => panic!("unexpected result {:?}", other),
    }
}

#[test]
fn lexer_integer_out_of_range_is_a_float() {
    assert_eq!(
        vec![LexerToken::FloatNumberLiteral(2147483648.0f64.to_bits())],
        lex("2147483648", &lexer_parse_float).unwrap()
    );
    assert_eq!(
        vec![LexerToken::NumberLiteral(2147483647)],
        lex("2147483647", &lexer_parse_float).unwrap()
    );
}

#[test]
fn parse_i32_agrees_with_the_standard_parser() {
    for text in [
        "0", "7", "007", "+5", "-5", "-0", "2147483647", "2147483648", "-2147483648",
        "-2147483649", "", "+", "-", "1a", "a1", " 1", "1 ", "--1", "1_000", "99999999999999999999",
    ] {
        assert_eq!(parse_i32(text), text.parse::<i32>().ok(), "text {:?}", text);
    }
}

#[test]
fn classify_lexeme_uses_the_lower_case_form_for_keywords_only() {
    assert_eq!(
        classify_lexeme("SELECT", "select", &lexer_parse_float).unwrap(),
        LexerToken::Select
    );
    assert_eq!(
        classify_lexeme("Name", "name", &lexer_parse_float).unwrap(),
        LexerToken::Identifier("Name".into())
    );
    assert_eq!(
        classify_lexeme("'It''", "'it''", &lexer_parse_float).unwrap(),
        LexerToken::StringLiteral("It'".into())
    );
    assert_eq!(
        classify_lexeme("1.5", "1.5", &lexer_parse_float).unwrap(),
        LexerToken::FloatNumberLiteral(1.5f64.to_bits())
    );
}

#[test]
fn literal_token_orders_the_readings() {
    assert_eq!(
        literal_token("\"12\"", Some(12), Some(7), Some(0)).unwrap(),
        LexerToken::StringLiteral("12".into())
    );
    assert_eq!(
        literal_token("12", Some(12), Some(7), None).unwrap(),
        LexerToken::NumberLiteral(12)
    );
    assert_eq!(
        literal_token("1.5", None, Some(7), Some(1)).unwrap(),
        LexerToken::FloatNumberLiteral(7)
    );
    assert_eq!(
        literal_token("a.b_c-d", None, None, None).unwrap(),
        LexerToken::Identifier("a.b_c-d".into())
    );
    assert!(matches!(
        literal_token("a*b", None, None, Some(1)),
        Err(ParseError::InvalidIdentifier('*', text)) if text == "a*b"
    ));
    assert!(matches!(
        literal_token("\"", None, None, Some(0)),
        Err(ParseError::InvalidIdentifier('"', _))
    ));
    assert!(is_identifier_char('x', true));
    assert!(is_identifier_char('.', false));
    assert!(is_identifier_char('_', false));
    assert!(is_identifier_char('-', false));
    assert!(!is_identifier_char('*', false));
}

#[test]
fn token_text() {
    let write_float = |bits: u64| f64::from_bits(bits).to_string();
    assert_eq!(LexerToken::Select.text(&write_float), "select");
    assert_eq!(LexerToken::ExclamationMark.text(&write_float), "!");
    assert_eq!(LexerToken::ParClose.text(&write_float), ")");
    assert_eq!(LexerToken::NumberLiteral(-12).text(&write_float), "-12");
    assert_eq!(LexerToken::BoolLiteral(false).text(&write_float), "false");
    assert_eq!(LexerToken::StringLiteral("a b".into()).text(&write_float), "a b");
    assert_eq!(LexerToken::CompareOp("<=".into()).text(&write_float), "<=");
    assert_eq!(
        LexerToken::FloatNumberLiteral(2.5f64.to_bits()).text(&write_float),
        "2.5"
    );
    assert_eq!(LexerToken::default(), LexerToken::Null);
}

#[test]
fn lexer_is_unicode_aware() {
    assert_eq!(
        lex("S\u{c9}LECT \u{e9}t\u{e9} FROM t", &lexer_parse_float).unwrap(),
        vec![
            LexerToken::Identifier("S\u{c9}LECT".into()),
            LexerToken::Identifier("\u{e9}t\u{e9}".into()),
            LexerToken::From,
            LexerToken::Identifier("t".into()),
        ]
    );
}

#[test]
fn float_form_agrees_with_the_standard_parser() {
    for text in [
        "0", "1.", ".5", ".", "", "+", "-", "e5", "1e5", "1e", "1e+", "1e+5", "1e-5", "1.5e-3",
        "1.e3", ".5e3", ".e3", "inf", "+inf", "-inf", "infinity", "-infinity", "nan", "-nan",
        "+nan", "infinit", "infinityy", "in", "na", "nanx", "1..5", "1.5.2", "0x10", "1_0",
        " 1", "1 ", "abc", "1e5.5", "++1", "+-1", "1f", "1e5e5", "00012.500", "-0", "-.5",
        "+5.", "e", "1ee5", "1e++5", "123456789012345678901234567890", "1e400", "\u{661}",
        "1.\u{661}", "2.22", "130.5", "4.300",
    ] {
        assert_eq!(
            is_float_literal(text),
            text.parse::<f64>().is_ok(),
            "text {:?}",
            text
        );
    }
}

#[test]
fn words_that_write_floats_are_float_literals() {
    assert_eq!(
        lex("select InF, 1E5, x1e5 from t", &lexer_parse_float).unwrap(),
        vec![
            LexerToken::Select,
            LexerToken::FloatNumberLiteral(f64::INFINITY.to_bits()),
            LexerToken::Comma,
            LexerToken::FloatNumberLiteral(1e5f64.to_bits()),
            LexerToken::Comma,
            LexerToken::Identifier("x1e5".into()),
            LexerToken::From,
            LexerToken::Identifier("t".into()),
        ]
    );
    let tokens = lex("NaN", &lexer_parse_float).unwrap();
    assert!(matches!(
        tokens.as_slice(),
        [LexerToken::FloatNumberLiteral(bits)] if f64::from_bits(*bits).is_nan()
    ));
    assert_ne!(tokens, lex("NaN", &lexer_parse_float).unwrap());
}

#[test]
fn reader_is_asked_about_float_forms_only() {
    let refuse = |_: &str| -> Option<u64> { None };
    assert_eq!(
        lex("select abc from t where x = 1", &refuse).unwrap(),
        lex("select abc from t where x = 1", &lexer_parse_float).unwrap()
    );
    let always = |_: &str| -> Option<u64> { Some(7) };
    assert_eq!(
        lex("select abc from t where x = 1", &always).unwrap(),
        lex("select abc from t where x = 1", &lexer_parse_float).unwrap()
    );
    assert_eq!(
        lex("1.5", &always).unwrap(),
        vec![LexerToken::FloatNumberLiteral(7)]
    );
    assert_eq!(
        lex("1.5", &refuse).unwrap(),
        vec![LexerToken::Identifier("1.5".into())]
    );
}
