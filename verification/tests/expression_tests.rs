use sql_engine::parser::errors::ParseError;
use sql_engine::parser::expression_tree::{fix_operator_precedence, parse_tree, Node};
use sql_engine::parser::expression_tree_eval::{
    evaluate_binary_node, evaluate_node, NodeValue, Number, NumberBinOp, StringHashMap,
};
use sql_engine::parser::lexer::{lex, LexerToken};

fn expr_parse_float(s: &str) -> Option<u64> {
    s.parse::<f64>().ok().map(|f| f.to_bits())
}

fn expr_as_float(n: Number) -> f64 {
    match n {
        Number::Int(i) => i as f64,
        Number::Float(bits) => f64::from_bits(bits),
    }
}

fn expr_float_op(op: NumberBinOp, a: Number, b: Number) -> NodeValue {
    let f1 = expr_as_float(a);
    let f2 = expr_as_float(b);
    match op {
        NumberBinOp::Add => NodeValue::Float((f1 + f2).to_bits()),
        NumberBinOp::Sub => NodeValue::Float((f1 - f2).to_bits()),
        NumberBinOp::Mul => NodeValue::Float((f1 * f2).to_bits()),
        NumberBinOp::Div => NodeValue::Float((f1 / f2).to_bits()),
        NumberBinOp::Mod => NodeValue::Float((f1 % f2).to_bits()),
        NumberBinOp::Greater => NodeValue::Bool(f1 > f2),
        NumberBinOp::Less => NodeValue::Bool(f1 < f2),
        NumberBinOp::GreaterEqual => NodeValue::Bool(f1 >= f2),
        NumberBinOp::LessEqual => NodeValue::Bool(f1 <= f2),
        NumberBinOp::Equal => NodeValue::Bool(f1 == f2),
        NumberBinOp::NotEqual => NodeValue::Bool(f1 != f2),
    }
}

fn expr_map() -> StringHashMap<NodeValue> {
    let mut map = StringHashMap::new();
    map.insert("x".to_string(), NodeValue::Int(100));
    map.insert("abc".to_string(), NodeValue::String("abc".into()));
    map.insert("nil".to_string(), NodeValue::Null);
    map
}

fn evaluate_expression(expr: &str) -> Result<NodeValue, ParseError> {
    let expr = lex(expr, &expr_parse_float).unwrap();
    let tree = parse_tree(expr).unwrap().unwrap();
    evaluate_node(&tree, &expr_map(), &expr_float_op)
}

#[test]
fn test_basic_stuff() {
    let expression = lex("(x = 100) and (abc = \"abc\")", &expr_parse_float).unwrap();
    let tree = parse_tree(expression).unwrap().unwrap();
    println!("{:?}", tree);
}

#[test]
fn test_basic_arithmetic() {
    assert_eq!(evaluate_expression("1 + 2").unwrap(), NodeValue::Int(3));
    assert_eq!(evaluate_expression("1 - 2").unwrap(), NodeValue::Int(-1));
    assert_eq!(evaluate_expression("1 * 2").unwrap(), NodeValue::Int(2));
    assert_eq!(evaluate_expression("1 / 2").unwrap(), NodeValue::Int(0));
    assert_eq!(evaluate_expression("1 % 2").unwrap(), NodeValue::Int(1));
}

#[test]
fn test_int_float_arithmetic() {
    assert_eq!(
        evaluate_expression("1 + 2.0").unwrap(),
        NodeValue::Float(3.0f64.to_bits())
    );
}

#[test]
fn test_bool_expressions() {
    assert_eq!(evaluate_expression("x = 100").unwrap(), NodeValue::Bool(true));
    assert_eq!(evaluate_expression("x != 10").unwrap(), NodeValue::Bool(true));
    assert_eq!(evaluate_expression("10 < x").unwrap(), NodeValue::Bool(true));
    assert_eq!(evaluate_expression("10 > x").unwrap(), NodeValue::Bool(false));
    assert_eq!(evaluate_expression("100 <= x").unwrap(), NodeValue::Bool(true));
    assert_eq!(evaluate_expression("100 >= x").unwrap(), NodeValue::Bool(true));
    assert_eq!(evaluate_expression("x <> 100").unwrap(), NodeValue::Bool(false));
}

#[test]
fn test_string_ops() {
    assert_eq!(
        evaluate_expression("\"foo\" + \"bar\"").unwrap(),
        NodeValue::String("foobar".into())
    );

    assert_eq!(
        evaluate_expression("\"foo\" != \"bar\"").unwrap(),
        NodeValue::Bool(true)
    );

    assert_eq!(
        evaluate_expression("\"foo\" = \"foo\"").unwrap(),
        NodeValue::Bool(true)
    );
}

#[test]
fn test_compound_ops() {
    assert_eq!(
        evaluate_expression("(x - 100) = (10 + 100 - 110)").unwrap(),
        NodeValue::Bool(true)
    );

    assert_eq!(
        evaluate_expression("(abc + \"def\") = (\"abcd\" + \"ef\")").unwrap(),
        NodeValue::Bool(true)
    );

    assert_eq!(
        evaluate_expression("(x = 100) and (abc = \"abc\")").unwrap(),
        NodeValue::Bool(true)
    );

    assert_eq!(
        evaluate_expression("(x - 101) = -1").unwrap(),
        NodeValue::Bool(true)
    );

    assert_eq!(
        evaluate_expression("((2 * x) = (3 + (122 * 300)))").unwrap(),
        NodeValue::Bool(false)
    );
}

#[test]
fn test_null_bubble_up() {
    assert_eq!(evaluate_expression("(nil * 3) + 2").unwrap(), NodeValue::Null);
    assert_eq!(
        evaluate_expression("(nil + \"aa\") = NULL").unwrap(),
        NodeValue::Bool(true)
    );
}

#[test]
fn null_eq_null() {
    assert_eq!(evaluate_expression("nil = NULL").unwrap(), NodeValue::Bool(true));

    assert_eq!(evaluate_expression("nil != NULL").unwrap(), NodeValue::Null);

    assert_eq!(
        evaluate_expression("nil <> NULL").unwrap(),
        NodeValue::Bool(false)
    );
}

#[test]
fn test_minus_eq() {
    assert_eq!(evaluate_expression("0 = -1").unwrap(), NodeValue::Bool(false));
}

#[test]
fn test_unary_op() {
    assert_eq!(evaluate_expression("-x").unwrap(), NodeValue::Int(-100));

    assert_eq!(
        evaluate_expression("not(x = 100)").unwrap(),
        NodeValue::Bool(false)
    );

    assert_eq!(evaluate_expression("!false").unwrap(), NodeValue::Bool(true));

    assert_eq!(evaluate_expression("-2 * -3").unwrap(), NodeValue::Int(6));
}

#[test]
fn test_operator_precedence() {
    assert_eq!(evaluate_expression("3 = 2 + 1").unwrap(), NodeValue::Bool(true));
    assert_eq!(
        evaluate_expression("false = true xor true").unwrap(),
        NodeValue::Bool(true)
    );
    assert_eq!(evaluate_expression("-1 * -6").unwrap(), NodeValue::Int(6));
    assert_eq!(
        evaluate_expression("\"abc\" + abc = abc + \"abc\"").unwrap(),
        NodeValue::Bool(true)
    );
    assert_eq!(
        evaluate_expression("100 >= 30 + 10").unwrap(),
        NodeValue::Bool(true)
    );
    assert_eq!(
        evaluate_expression("(11 + 1) / 2 + 6").unwrap(),
        NodeValue::Int(12)
    );
    assert_eq!(
        evaluate_expression("x > 4 and x <= 130.5").unwrap(),
        NodeValue::Bool(true)
    );
}

#[test]
fn null_on_the_left_compares_only_with_null() {
    assert_eq!(evaluate_expression("nil = 3").unwrap(), NodeValue::Bool(false));
    assert_eq!(evaluate_expression("nil <> 3").unwrap(), NodeValue::Bool(true));
    assert_eq!(evaluate_expression("nil + 3").unwrap(), NodeValue::Null);
    assert_eq!(evaluate_expression("nil and true").unwrap(), NodeValue::Null);
    assert_eq!(evaluate_expression("3 = nil").unwrap(), NodeValue::Null);
    assert_eq!(evaluate_expression("true and nil").unwrap(), NodeValue::Null);
    assert_eq!(evaluate_expression("\"a\" + nil").unwrap(), NodeValue::Null);
    assert_eq!(evaluate_expression("not nil").unwrap(), NodeValue::Null);
    assert_eq!(evaluate_expression("-nil").unwrap(), NodeValue::Null);
}

#[test]
fn where_condition_counts_null_as_false() {
    let tree = parse_tree(lex("nil > 3", &expr_parse_float).unwrap())
        .unwrap()
        .unwrap();
    assert_eq!(
        evaluate_binary_node(&tree, &expr_map(), &expr_float_op).unwrap(),
        false
    );
    let tree = parse_tree(lex("x > 3", &expr_parse_float).unwrap())
        .unwrap()
        .unwrap();
    assert_eq!(
        evaluate_binary_node(&tree, &expr_map(), &expr_float_op).unwrap(),
        true
    );
    let tree = parse_tree(lex("x + 3", &expr_parse_float).unwrap())
        .unwrap()
        .unwrap();
    assert!(matches!(
        evaluate_binary_node(&tree, &expr_map(), &expr_float_op),
        Err(ParseError::InvalidType(_, NodeValue::Int(103)))
    ));
}

#[test]
fn evaluation_errors() {
    assert!(matches!(
        evaluate_expression("unknown + 1"),
        Err(ParseError::IdentifierNotFound(name)) if name == "unknown"
    ));
    assert!(matches!(
        evaluate_expression("true + 1"),
        Err(ParseError::InvalidOperator(_, LexerToken::Plus))
    ));
    assert!(matches!(
        evaluate_expression("1 and 2"),
        Err(ParseError::InvalidOperator(_, LexerToken::LogicalOp(_)))
    ));
    assert!(matches!(
        evaluate_expression("1 + abc"),
        Err(ParseError::InvalidType(_, NodeValue::String(_)))
    ));
    assert!(matches!(
        evaluate_expression("abc = 1"),
        Err(ParseError::InvalidType(_, NodeValue::Int(1)))
    ));
    assert!(matches!(
        evaluate_expression("not 1"),
        Err(ParseError::InvalidType(_, NodeValue::Int(1)))
    ));
    assert!(matches!(
        evaluate_expression("-abc"),
        Err(ParseError::InvalidType(_, NodeValue::String(_)))
    ));
}

#[test]
fn integer_arithmetic_at_the_limits() {
    assert_eq!(
        evaluate_expression("2147483647 + 1").unwrap(),
        NodeValue::Int(i32::MIN)
    );
    assert_eq!(evaluate_expression("7 / -2").unwrap(), NodeValue::Int(-3));
    assert_eq!(evaluate_expression("-7 % 2").unwrap(), NodeValue::Int(-1));
    assert!(matches!(
        evaluate_expression("1 / 0"),
        Err(ParseError::InvalidType(_, NodeValue::Int(0)))
    ));
    assert!(matches!(
        evaluate_expression("1 % 0"),
        Err(ParseError::InvalidType(_, NodeValue::Int(0)))
    ));
}

#[test]
fn float_negation_flips_the_sign() {
    assert_eq!(
        evaluate_expression("-(1.5)").unwrap(),
        NodeValue::Float((-1.5f64).to_bits())
    );
    assert_eq!(
        evaluate_expression("2.5 * 2").unwrap(),
        NodeValue::Float(5.0f64.to_bits())
    );
    assert_eq!(evaluate_expression("2.5 > 2").unwrap(), NodeValue::Bool(true));
}

#[test]
fn precedence_adds_parentheses() {
    let tokens = lex("1 + 2 * 3", &expr_parse_float).unwrap();
    let fixed = fix_operator_precedence(tokens);
    let text: Vec<String> = fixed
        .iter()
        .map(|t| match t {
            LexerToken::ParOpen => "(".to_string(),
            LexerToken::ParClose => ")".to_string(),
            LexerToken::Plus => "+".to_string(),
            LexerToken::Star => "*".to_string(),
            LexerToken::NumberLiteral(n) => format!("{}", n),
            other => format!("{:?}", other),
        })
        .collect();
    assert_eq!(text.concat(), "((((1))+((2)*(3))))");
    let short = lex("1 +", &expr_parse_float).unwrap();
    assert_eq!(fix_operator_precedence(short).len(), 2);
}

#[test]
fn tree_shapes() {
    let tree = parse_tree(lex("1 + 2 * 3", &expr_parse_float).unwrap())
        .unwrap()
        .unwrap();
    assert_eq!(
        tree,
        Node::new_binary(
            Node::Leaf(LexerToken::NumberLiteral(1)),
            LexerToken::Plus,
            Node::new_binary(
                Node::Leaf(LexerToken::NumberLiteral(2)),
                LexerToken::Star,
                Node::Leaf(LexerToken::NumberLiteral(3)),
            ),
        )
    );
    assert_eq!(parse_tree(Vec::new()).unwrap(), None);
    assert_eq!(
        parse_tree(vec![LexerToken::Minus, LexerToken::Identifier("x".into())]).unwrap(),
        Some(Node::new_unary(
            LexerToken::Minus,
            Node::Leaf(LexerToken::Identifier("x".into()))
        ))
    );
}

#[test]
fn tree_errors() {
    assert!(matches!(
        parse_tree(lex("(1 + 2", &expr_parse_float).unwrap()),
        Err(ParseError::UnfinishedParenthesis)
    ));
    assert!(matches!(
        parse_tree(lex("1 +", &expr_parse_float).unwrap()),
        Err(ParseError::UnexpectedQueryEnding)
    ));
    assert!(matches!(
        parse_tree(lex("select", &expr_parse_float).unwrap()),
        Err(ParseError::UnexpectedToken(_, LexerToken::Select))
    ));
    assert!(matches!(
        parse_tree(lex("x 5", &expr_parse_float).unwrap()),
        Err(ParseError::UnexpectedToken(_, LexerToken::NumberLiteral(5)))
    ));
}

#[test]
fn collect_identifiers_goes_left_to_right() {
    let tree = parse_tree(lex("a = 1 and (b > c or not a)", &expr_parse_float).unwrap())
        .unwrap()
        .unwrap();
    let mut names = vec!["first".to_string()];
    tree.collect_identifiers(&mut names);
    assert_eq!(names, vec!["first", "a", "b", "c", "a"]);
}
