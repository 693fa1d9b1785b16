use sql_engine::parser::errors::ParseError;
use sql_engine::parser::expression_tree::Node;
use sql_engine::parser::lexer::LexerToken;
use sql_engine::parser::query_parser::{parse, Query};

fn qp_parse_float(s: &str) -> Option<u64> {
    s.parse::<f64>().ok().map(|f| f.to_bits())
}

#[test]
fn test_select() {
    let expr = "select id, name, lastname from person";
    let expected = Query::Select {
        body: vec![
            LexerToken::Identifier("id".to_string()),
            LexerToken::Identifier("name".to_string()),
            LexerToken::Identifier("lastname".to_string()),
        ],
        table_name: "person".to_string(),
        where_body: None,
    };

    let result = parse(expr, &qp_parse_float).unwrap();
    assert_eq!(expected, result);
}

#[test]
fn query_parser_test_select_with_where() {
    let expr = "select * from person where id = 3";
    let expected = Query::Select {
        body: vec![LexerToken::Star],
        table_name: "person".to_string(),
        where_body: Some(Node::new_binary(
            Node::Leaf(LexerToken::Identifier("id".into())),
            LexerToken::CompareOp("=".into()),
            Node::Leaf(LexerToken::NumberLiteral(3)),
        )),
    };

    let result = parse(expr, &qp_parse_float).unwrap();
    assert_eq!(expected, result);
}

#[test]
fn query_parser_test_insert() {
    let expr = "insert into mira values 'Mira', 24";
    let expected = Query::Insert {
        values: vec![
            LexerToken::StringLiteral("Mira".to_string()),
            LexerToken::NumberLiteral(24),
        ],
        columns: Vec::new(),
        table_name: "mira".into(),
    };

    let result = parse(expr, &qp_parse_float).unwrap();
    assert_eq!(expected, result);
}

#[test]
fn test_insert_parentheses() {
    let expr = "insert into mira values ('Mira', 24)";
    let expected = Query::Insert {
        values: vec![
            LexerToken::StringLiteral("Mira".to_string()),
            LexerToken::NumberLiteral(24),
        ],
        columns: Vec::new(),
        table_name: "mira".into(),
    };

    let result = parse(expr, &qp_parse_float).unwrap();
    assert_eq!(expected, result);
}

#[test]
fn test_insert_selected_columns() {
    let expr = "insert into mira (abc, def, ijk) values ('Mira', 24, 33)";
    let expected = Query::Insert {
        values: vec![
            LexerToken::StringLiteral("Mira".to_string()),
            LexerToken::NumberLiteral(24),
            LexerToken::NumberLiteral(33),
        ],
        columns: vec!["abc".into(), "def".into(), "ijk".into()],
        table_name: "mira".into(),
    };

    let result = parse(expr, &qp_parse_float).unwrap();
    assert_eq!(expected, result);
}

#[test]
fn query_parser_test_delete() {
    let expr = "delete from table_name where x > 1";
    let expected = Query::Delete {
        table_name: "table_name".to_string(),
        where_body: Some(Node::new_binary(
            Node::Leaf(LexerToken::Identifier("x".into())),
            LexerToken::CompareOp(">".into()),
            Node::Leaf(LexerToken::NumberLiteral(1)),
        )),
    };

    let result = parse(expr, &qp_parse_float).unwrap();
    assert_eq!(expected, result);
}

#[test]
fn query_parser_test_create_table() {
    let expr = "create table table_name x int, y varchar, bool_column boolean";
    let expected = Query::CreateTable {
        table_name: "table_name".to_string(),
        columns_definition: vec![
            ("x".to_string(), "int".to_string()),
            ("y".to_string(), "varchar".to_string()),
            ("bool_column".to_string(), "boolean".to_string()),
        ],
    };

    let result = parse(expr, &qp_parse_float).unwrap();
    assert_eq!(expected, result);
}

#[test]
fn test_create_table_parenthesised() {
    let expr = "create table table_name (x int, y varchar, bool_column boolean)";
    let expected = Query::CreateTable {
        table_name: "table_name".to_string(),
        columns_definition: vec![
            ("x".to_string(), "int".to_string()),
            ("y".to_string(), "varchar".to_string()),
            ("bool_column".to_string(), "boolean".to_string()),
        ],
    };

    let result = parse(expr, &qp_parse_float).unwrap();
    assert_eq!(expected, result);
}

#[test]
fn query_parser_test_drop_table() {
    let expr = "drop table table_name";
    let expected = Query::DropTable {
        table_name: "table_name".to_string(),
    };

    let result = parse(expr, &qp_parse_float).unwrap();
    assert_eq!(expected, result);
}

#[test]
fn test_drop_index() {
    let expr = "drop index column_name on table_name";
    let expected = Query::DropIndex {
        column_name: "column_name".to_string(),
        table_name: "table_name".to_string(),
    };

    let result = parse(expr, &qp_parse_float).unwrap();
    assert_eq!(expected, result);
}

#[test]
fn query_parser_test_create_index() {
    let expr = "create index column_name on table_name";
    let expected = Query::CreateIndex {
        column_name: "column_name".to_string(),
        table_name: "table_name".to_string(),
    };

    let result = parse(expr, &qp_parse_float).unwrap();
    assert_eq!(expected, result);
}

#[test]
fn test_create_index_fails_multiple_columns() {
    let expr = "create index index_name on table_name (column1, column2)";
    let result = parse(expr, &qp_parse_float);
    assert!(result.is_err());
}

#[test]
fn trailing_semicolon_is_allowed_once() {
    assert!(parse("drop table t;", &qp_parse_float).is_ok());
    assert!(matches!(
        parse("drop table t; x", &qp_parse_float),
        Err(ParseError::UnexpectedQueryEnding)
    ));
    assert!(matches!(
        parse("drop table t x", &qp_parse_float),
        Err(ParseError::UnexpectedQueryEnding)
    ));
    assert!(matches!(
        parse("create index c on t;;", &qp_parse_float),
        Err(ParseError::UnexpectedQueryEnding)
    ));
}

#[test]
fn query_parser_errors() {
    assert!(matches!(
        parse("", &qp_parse_float),
        Err(ParseError::UnexpectedQueryEnding)
    ));
    assert!(matches!(
        parse("update", &qp_parse_float),
        Err(ParseError::UnexpectedToken(expected, LexerToken::Identifier(_))) if expected == "SELECT/INSERT/DELETE"
    ));
    assert!(matches!(
        parse("update t", &qp_parse_float),
        Err(ParseError::UnexpectedQueryEnding)
    ));
    assert!(matches!(
        parse("select * person", &qp_parse_float),
        Err(ParseError::UnexpectedQueryEnding)
    ));
    assert!(matches!(
        parse("select * from", &qp_parse_float),
        Err(ParseError::UnexpectedQueryEnding)
    ));
    assert!(matches!(
        parse("select + from t", &qp_parse_float),
        Err(ParseError::UnexpectedToken(expected, LexerToken::Plus)) if expected == "expression body"
    ));
    assert!(matches!(
        parse("insert t values 1", &qp_parse_float),
        Err(ParseError::UnexpectedToken(expected, LexerToken::Identifier(_))) if expected == "Into"
    ));
    assert!(matches!(
        parse("insert into t (a, b) values (1)", &qp_parse_float),
        Err(ParseError::InsertQueryValuesMismatch)
    ));
    assert!(matches!(
        parse("insert into t values (1, 2", &qp_parse_float),
        Err(ParseError::UnexpectedToken(expected, LexerToken::NumberLiteral(2))) if expected == "closing parenthesis"
    ));
    assert!(matches!(
        parse("create table t x", &qp_parse_float),
        Err(ParseError::UnexpectedQueryEnding)
    ));
    assert!(matches!(
        parse("create table t x y", &qp_parse_float),
        Err(ParseError::UnexpectedToken(expected, LexerToken::Identifier(_))) if expected == "data-type"
    ));
    assert!(matches!(
        parse("create view v", &qp_parse_float),
        Err(ParseError::UnexpectedToken(expected, LexerToken::Identifier(_))) if expected == "table name or identifier"
    ));
    assert!(matches!(
        parse("create table t (x int", &qp_parse_float),
        Err(ParseError::UnexpectedQueryEnding)
    ));
    assert!(matches!(
        parse("delete from t where (x = 1", &qp_parse_float),
        Err(ParseError::UnfinishedParenthesis)
    ));
}

#[test]
fn select_body_takes_literals_and_optional_commas() {
    let result = parse("SELECT *, 1, id 'x' FROM my_table WHERE x = 2", &qp_parse_float).unwrap();
    match result {
        Query::Select { body, table_name, where_body } => {
            assert_eq!(
                body,
                vec![
                    LexerToken::Star,
                    LexerToken::NumberLiteral(1),
                    LexerToken::Identifier("id".into()),
                    LexerToken::StringLiteral("x".into()),
                ]
            );
            assert_eq!(table_name, "my_table");
            assert!(where_body.is_some());
        }
        other => panic!("unexpected query {:?}", other),
    }
    let result = parse("insert into my_table values 1,3,4.300", &qp_parse_float).unwrap();
    assert_eq!(
        result,
        Query::Insert {
            values: vec![
                LexerToken::NumberLiteral(1),
                LexerToken::NumberLiteral(3),
                LexerToken::FloatNumberLiteral(4.3f64.to_bits()),
            ],
            columns: Vec::new(),
            table_name: "my_table".into(),
        }
    );
}
