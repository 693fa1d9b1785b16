//! Evaluation of expression trees over typed values with NULL propagation.
use vstd::prelude::*;
use vstd::pervasive::unreached;
use vstd::string::*;
use vstd::std_specs::cmp::PartialEqSpecImpl;
pub use vstd::hash_map::StringHashMap;
use crate::common::db::{float_bits_equal, float_equal};
use crate::parser::errors::{ParseError, ParseErrorView};
use crate::parser::expression_tree::{Node, NodeView};
use crate::parser::lexer::{LexerToken, TokenView};
use crate::text::str_equal;

verus! {

/// The value of an expression. A `Float` holds the bit pattern of a 64-bit IEEE-754 number.
#[derive(Debug)]
pub enum NodeValue {
    Bool(bool),
    String(String),
    Int(i32),
    Float(u64),
    Null,
}

/// What a `NodeValue` is, with text as a sequence of characters.
pub enum ValueView {
    Bool(bool),
    String(Seq<char>),
    Int(i32),
    Float(u64),
    Null,
}

impl View for NodeValue {
    type V = ValueView;

    open spec fn view(&self) -> ValueView {
        match self {
            NodeValue::Bool(b) => ValueView::Bool(*b),
            NodeValue::String(s) => ValueView::String(s@),
            NodeValue::Int(i) => ValueView::Int(*i),
            NodeValue::Float(f) => ValueView::Float(*f),
            NodeValue::Null => ValueView::Null,
        }
    }
}

impl ValueView {
    /// Equality of values: by variant and payload, floats numerically.
    pub open spec fn equal(self, other: ValueView) -> bool {
        match (self, other) {
            (ValueView::Float(a), ValueView::Float(b)) => float_bits_equal(a, b),
            _ => self == other,
        }
    }
}

impl Clone for NodeValue {
    fn clone(&self) -> (r: Self)
        ensures
            r == *self,
    {
        match self {
            NodeValue::Bool(b) => NodeValue::Bool(*b),
            NodeValue::String(s) => NodeValue::String(s.clone()),
            NodeValue::Int(i) => NodeValue::Int(*i),
            NodeValue::Float(f) => NodeValue::Float(*f),
            NodeValue::Null => NodeValue::Null,
        }
    }
}

impl PartialEq for NodeValue {
    fn eq(&self, other: &Self) -> (r: bool) {
        match (self, other) {
            (NodeValue::Bool(a), NodeValue::Bool(b)) => *a == *b,
            (NodeValue::String(a), NodeValue::String(b)) => *a == *b,
            (NodeValue::Int(a), NodeValue::Int(b)) => *a == *b,
            (NodeValue::Float(a), NodeValue::Float(b)) => float_equal(*a, *b),
            (NodeValue::Null, NodeValue::Null) => true,
            _ => false,
        }
    }
}

impl PartialEqSpecImpl for NodeValue {
    open spec fn obeys_eq_spec() -> bool {
        true
    }

    open spec fn eq_spec(&self, other: &Self) -> bool {
        self@.equal(other@)
    }
}


/// A binary operator on numbers.
#[derive(PartialEq, Eq, Debug, Copy, Clone, Structural)]
pub enum NumberBinOp {
    Add,
    Sub,
    Mul,
    Div,
    Mod,
    Less,
    Greater,
    LessEqual,
    GreaterEqual,
    Equal,
    NotEqual,
}

/// A binary operator on booleans.
#[derive(PartialEq, Eq, Debug, Copy, Clone, Structural)]
pub enum BoolBinOp {
    And,
    Or,
    Xor,
    Equal,
    NotEqual,
}

/// A binary operator on strings.
#[derive(PartialEq, Eq, Debug, Copy, Clone, Structural)]
pub enum StringOp {
    Concat,
    Equal,
    NotEqual,
}

/// A numeric operand. A `Float` holds the bit pattern of a 64-bit IEEE-754 number.
#[derive(PartialEq, Eq, Debug, Copy, Clone, Structural)]
pub enum Number {
    Int(i32),
    Float(u64),
}

/// The operator on numbers that a token names.
pub open spec fn number_op_spec(token: TokenView) -> Result<NumberBinOp, ParseErrorView> {
    match token {
        TokenView::Plus => Ok(NumberBinOp::Add),
        TokenView::Minus => Ok(NumberBinOp::Sub),
        TokenView::Star => Ok(NumberBinOp::Mul),
        TokenView::Slash => Ok(NumberBinOp::Div),
        TokenView::Percent => Ok(NumberBinOp::Mod),
        TokenView::CompareOp(op) => if op == ">"@ {
            Ok(NumberBinOp::Greater)
        } else if op == "<"@ {
            Ok(NumberBinOp::Less)
        } else if op == ">="@ {
            Ok(NumberBinOp::GreaterEqual)
        } else if op == "<="@ {
            Ok(NumberBinOp::LessEqual)
        } else if op == "="@ {
            Ok(NumberBinOp::Equal)
        } else if op == "!="@ || op == "<>"@ {
            Ok(NumberBinOp::NotEqual)
        } else {
            Err(ParseErrorView::InvalidOperator("binary operator"@, token))
        },
        _ => Err(ParseErrorView::InvalidOperator("binary operator"@, token)),
    }
}

/// The operator on booleans that a token names.
pub open spec fn bool_op_spec(token: TokenView) -> Result<BoolBinOp, ParseErrorView> {
    match token {
        TokenView::LogicalOp(op) => if op == "and"@ {
            Ok(BoolBinOp::And)
        } else if op == "or"@ {
            Ok(BoolBinOp::Or)
        } else if op == "xor"@ {
            Ok(BoolBinOp::Xor)
        } else {
            Err(ParseErrorView::InvalidOperator("and, or, xor"@, token))
        },
        TokenView::CompareOp(op) => if op == "="@ {
            Ok(BoolBinOp::Equal)
        } else if op == "!="@ || op == "<>"@ {
            Ok(BoolBinOp::NotEqual)
        } else {
            Err(ParseErrorView::InvalidOperator("=, !=, <>"@, token))
        },
        _ => Err(ParseErrorView::InvalidOperator("binary bool operator"@, token)),
    }
}

/// The operator on strings that a token names.
pub open spec fn string_op_spec(token: TokenView) -> Result<StringOp, ParseErrorView> {
    match token {
        TokenView::Plus => Ok(StringOp::Concat),
        TokenView::CompareOp(op) => if op == "="@ {
            Ok(StringOp::Equal)
        } else if op == "!="@ || op == "<>"@ {
            Ok(StringOp::NotEqual)
        } else {
            Err(ParseErrorView::InvalidOperator("=, !=, <>"@, token))
        },
        _ => Err(ParseErrorView::InvalidOperator("binary string operator"@, token)),
    }
}

/// The view of an operator or the error in its place.
pub open spec fn op_result_view<T>(r: Result<T, ParseError>) -> Result<T, ParseErrorView> {
    match r {
        Ok(op) => Ok(op),
        Err(e) => Err(e@),
    }
}

impl NumberBinOp {
    /// The operator on numbers that a token names.
    pub fn try_from(value: &LexerToken) -> (r: Result<Self, ParseError>)
        ensures
            op_result_view(r) == number_op_spec(value@),
    {
        match value {
            LexerToken::Plus => Ok(NumberBinOp::Add),
            LexerToken::Minus => Ok(NumberBinOp::Sub),
            LexerToken::Star => Ok(NumberBinOp::Mul),
            LexerToken::Slash => Ok(NumberBinOp::Div),
            LexerToken::Percent => Ok(NumberBinOp::Mod),
            LexerToken::CompareOp(op) => {
                if str_equal(op.as_str(), ">") {
                    Ok(NumberBinOp::Greater)
                } else if str_equal(op.as_str(), "<") {
                    Ok(NumberBinOp::Less)
                } else if str_equal(op.as_str(), ">=") {
                    Ok(NumberBinOp::GreaterEqual)
                } else if str_equal(op.as_str(), "<=") {
                    Ok(NumberBinOp::LessEqual)
                } else if str_equal(op.as_str(), "=") {
                    Ok(NumberBinOp::Equal)
                } else if str_equal(op.as_str(), "!=") || str_equal(op.as_str(), "<>") {
                    Ok(NumberBinOp::NotEqual)
                } else {
                    Err(
                        ParseError::InvalidOperator(
                            String::from_str("binary operator"),
                            value.clone(),
                        ),
                    )
                }
            },
            _ => Err(
                ParseError::InvalidOperator(String::from_str("binary operator"), value.clone()),
            ),
        }
    }
}

impl BoolBinOp {
    /// The operator on booleans that a token names.
    pub fn try_from(value: &LexerToken) -> (r: Result<Self, ParseError>)
        ensures
            op_result_view(r) == bool_op_spec(value@),
    {
        match value {
            LexerToken::LogicalOp(op) => {
                if str_equal(op.as_str(), "and") {
                    Ok(BoolBinOp::And)
                } else if str_equal(op.as_str(), "or") {
                    Ok(BoolBinOp::Or)
                } else if str_equal(op.as_str(), "xor") {
                    Ok(BoolBinOp::Xor)
                } else {
                    Err(
                        ParseError::InvalidOperator(
                            String::from_str("and, or, xor"),
                            value.clone(),
                        ),
                    )
                }
            },
            LexerToken::CompareOp(op) => {
                if str_equal(op.as_str(), "=") {
                    Ok(BoolBinOp::Equal)
                } else if str_equal(op.as_str(), "!=") || str_equal(op.as_str(), "<>") {
                    Ok(BoolBinOp::NotEqual)
                } else {
                    Err(
                        ParseError::InvalidOperator(String::from_str("=, !=, <>"), value.clone()),
                    )
                }
            },
            _ => Err(
                ParseError::InvalidOperator(
                    String::from_str("binary bool operator"),
                    value.clone(),
                ),
            ),
        }
    }
}

impl StringOp {
    /// The operator on strings that a token names.
    pub fn try_from(value: &LexerToken) -> (r: Result<Self, ParseError>)
        ensures
            op_result_view(r) == string_op_spec(value@),
    {
        match value {
            LexerToken::Plus => Ok(StringOp::Concat),
            LexerToken::CompareOp(op) => {
                if str_equal(op.as_str(), "=") {
                    Ok(StringOp::Equal)
                } else if str_equal(op.as_str(), "!=") || str_equal(op.as_str(), "<>") {
                    Ok(StringOp::NotEqual)
                } else {
                    Err(
                        ParseError::InvalidOperator(String::from_str("=, !=, <>"), value.clone()),
                    )
                }
            },
            _ => Err(
                ParseError::InvalidOperator(
                    String::from_str("binary string operator"),
                    value.clone(),
                ),
            ),
        }
    }
}

/// What stands for the arithmetic of 64-bit floats in contracts: the value of an operator
/// on two numbers of which at least one is a float.
pub type FloatArithmetic = spec_fn(NumberBinOp, Number, Number) -> ValueView;

/// Whether `floats` says what `float_op` returns on all operands.
pub open spec fn computes_floats_as<A: Fn(NumberBinOp, Number, Number) -> NodeValue>(
    float_op: &A,
    floats: FloatArithmetic,
) -> bool {
    forall|op: NumberBinOp, a: Number, b: Number, r: NodeValue| #[trigger]
        float_op.ensures((op, a, b), r) ==> r@ == floats(op, a, b)
}

/// Whether `float_op` can be called on all operands.
pub open spec fn float_op_total<A: Fn(NumberBinOp, Number, Number) -> NodeValue>(
    float_op: &A,
) -> bool {
    forall|op: NumberBinOp, a: Number, b: Number| #[trigger] float_op.requires((op, a, b))
}

/// The values of the identifiers, by their views.
pub open spec fn env_view(map: Map<Seq<char>, NodeValue>) -> Map<Seq<char>, ValueView> {
    map.map_values(|v: NodeValue| v@)
}

/// The value of a leaf: a literal stands for itself, an identifier for its value in `env`.
pub open spec fn eval_leaf_spec(token: TokenView, env: Map<Seq<char>, ValueView>) -> Result<
    ValueView,
    ParseErrorView,
> {
    match token {
        TokenView::BoolLiteral(value) => Ok(ValueView::Bool(value)),
        TokenView::StringLiteral(value) => Ok(ValueView::String(value)),
        TokenView::NumberLiteral(value) => Ok(ValueView::Int(value)),
        TokenView::FloatNumberLiteral(value) => Ok(ValueView::Float(value)),
        TokenView::Identifier(id) => if env.contains_key(id) {
            Ok(env[id])
        } else {
            Err(ParseErrorView::IdentifierNotFound(id))
        },
        TokenView::Null => Ok(ValueView::Null),
        _ => Err(ParseErrorView::UnexpectedToken("leaf token"@, token)),
    }
}

/// The bit pattern of the negated float: the sign bit flipped.
pub open spec fn float_negated(bits: u64) -> u64 {
    bits ^ 0x8000_0000_0000_0000
}

/// The value of a unary operator on a value. `not` and `!` invert a boolean, `-` negates a
/// number (an integer with wrap-around), and each gives NULL on NULL.
pub open spec fn eval_unary_spec(op: TokenView, value: ValueView) -> Result<
    ValueView,
    ParseErrorView,
> {
    match op {
        TokenView::Not | TokenView::ExclamationMark => match value {
            ValueView::Bool(b) => Ok(ValueView::Bool(!b)),
            ValueView::Null => Ok(ValueView::Null),
            _ => Err(ParseErrorView::InvalidType("bool"@, value)),
        },
        TokenView::Minus => match value {
            ValueView::Int(i) => Ok(ValueView::Int(0i32.wrapping_sub(i))),
            ValueView::Float(f) => Ok(ValueView::Float(float_negated(f))),
            ValueView::Null => Ok(ValueView::Null),
            _ => Err(ParseErrorView::InvalidType("int, float"@, value)),
        },
        _ => Err(ParseErrorView::InvalidOperator("!, not, -"@, op)),
    }
}

/// The value of an operator on two integers. Sums, differences and products wrap around;
/// quotients round toward zero; a zero divisor is an error.
pub open spec fn eval_int_op_spec(i1: i32, i2: i32, op: NumberBinOp) -> Result<
    ValueView,
    ParseErrorView,
> {
    match op {
        NumberBinOp::Add => Ok(ValueView::Int(i1.wrapping_add(i2))),
        NumberBinOp::Sub => Ok(ValueView::Int(i1.wrapping_sub(i2))),
        NumberBinOp::Mul => Ok(ValueView::Int(i1.wrapping_mul(i2))),
        NumberBinOp::Div => if i2 == 0 {
            Err(ParseErrorView::InvalidType("non-zero divisor"@, ValueView::Int(i2)))
        } else {
            match i1.checked_div(i2) {
                Some(q) => Ok(ValueView::Int(q)),
                None => Ok(ValueView::Int(i1)),
            }
        },
        NumberBinOp::Mod => if i2 == 0 {
            Err(ParseErrorView::InvalidType("non-zero divisor"@, ValueView::Int(i2)))
        } else {
            match i1.checked_rem(i2) {
                Some(r) => Ok(ValueView::Int(r)),
                None => Ok(ValueView::Int(0)),
            }
        },
        NumberBinOp::Greater => Ok(ValueView::Bool(i1 > i2)),
        NumberBinOp::Less => Ok(ValueView::Bool(i1 < i2)),
        NumberBinOp::GreaterEqual => Ok(ValueView::Bool(i1 >= i2)),
        NumberBinOp::LessEqual => Ok(ValueView::Bool(i1 <= i2)),
        NumberBinOp::Equal => Ok(ValueView::Bool(i1 == i2)),
        NumberBinOp::NotEqual => Ok(ValueView::Bool(i1 != i2)),
    }
}

/// The number that a numeric value holds; zero for a value that is no number.
pub open spec fn number_of(value: ValueView) -> Number {
    match value {
        ValueView::Int(i) => Number::Int(i),
        ValueView::Float(f) => Number::Float(f),
        _ => Number::Int(0),
    }
}

/// The value of an operator on a number and a second value. Two integers stay integers;
/// with a float on either side the operator is one of `floats`; a NULL on the right gives
/// NULL; anything else on the right is an error.
pub open spec fn eval_number_op_spec(
    left: Number,
    right: ValueView,
    op: NumberBinOp,
    floats: FloatArithmetic,
) -> Result<ValueView, ParseErrorView> {
    match (left, right) {
        (Number::Int(i1), ValueView::Int(i2)) => eval_int_op_spec(i1, i2, op),
        (_, ValueView::Int(i2)) => Ok(floats(op, left, Number::Int(i2))),
        (_, ValueView::Float(f2)) => Ok(floats(op, left, Number::Float(f2))),
        (_, ValueView::Null) => Ok(ValueView::Null),
        _ => Err(ParseErrorView::InvalidType("int, float"@, right)),
    }
}

/// The value of an operator on a string and a second value.
pub open spec fn eval_string_op_spec(left: Seq<char>, right: ValueView, op: StringOp) -> Result<
    ValueView,
    ParseErrorView,
> {
    match right {
        ValueView::String(s2) => match op {
            StringOp::Concat => Ok(ValueView::String(left + s2)),
            StringOp::Equal => Ok(ValueView::Bool(left == s2)),
            StringOp::NotEqual => Ok(ValueView::Bool(left != s2)),
        },
        ValueView::Null => Ok(ValueView::Null),
        _ => Err(ParseErrorView::InvalidType("string"@, right)),
    }
}

/// The value of an operator on a boolean and a second value.
pub open spec fn eval_bool_op_spec(left: bool, right: ValueView, op: BoolBinOp) -> Result<
    ValueView,
    ParseErrorView,
> {
    match right {
        ValueView::Bool(b2) => match op {
            BoolBinOp::And => Ok(ValueView::Bool(left && b2)),
            BoolBinOp::Or => Ok(ValueView::Bool(left || b2)),
            BoolBinOp::Xor => Ok(ValueView::Bool(left != b2)),
            BoolBinOp::Equal => Ok(ValueView::Bool(left == b2)),
            BoolBinOp::NotEqual => Ok(ValueView::Bool(left != b2)),
        },
        ValueView::Null => Ok(ValueView::Null),
        _ => Err(ParseErrorView::InvalidType("bool"@, right)),
    }
}

/// The value of a binary operator on two values. The left value decides which operators
/// are accepted. With NULL on the left, `=` and `<>` say whether the right value is NULL
/// too, and every other operator gives NULL.
pub open spec fn eval_binary_spec(
    left: ValueView,
    op: TokenView,
    right: ValueView,
    floats: FloatArithmetic,
) -> Result<ValueView, ParseErrorView> {
    match left {
        ValueView::Bool(b) => match bool_op_spec(op) {
            Err(e) => Err(e),
            Ok(bool_op) => eval_bool_op_spec(b, right, bool_op),
        },
        ValueView::String(s) => match string_op_spec(op) {
            Err(e) => Err(e),
            Ok(string_op) => eval_string_op_spec(s, right, string_op),
        },
        ValueView::Int(i) => match number_op_spec(op) {
            Err(e) => Err(e),
            Ok(number_op) => eval_number_op_spec(Number::Int(i), right, number_op, floats),
        },
        ValueView::Float(f) => match number_op_spec(op) {
            Err(e) => Err(e),
            Ok(number_op) => eval_number_op_spec(Number::Float(f), right, number_op, floats),
        },
        ValueView::Null => if op == TokenView::CompareOp("="@) {
            Ok(ValueView::Bool(right is Null))
        } else if op == TokenView::CompareOp("<>"@) {
            Ok(ValueView::Bool(!(right is Null)))
        } else {
            Ok(ValueView::Null)
        },
    }
}

/// The value of an expression tree, given the values of its identifiers. The operands of
/// a binary node are evaluated left first; the first error ends the evaluation.
pub open spec fn eval_spec(
    node: NodeView,
    env: Map<Seq<char>, ValueView>,
    floats: FloatArithmetic,
) -> Result<ValueView, ParseErrorView>
    decreases node,
{
    match node {
        NodeView::Leaf(token) => eval_leaf_spec(token, env),
        NodeView::Unary { op, node } => match eval_spec(*node, env, floats) {
            Err(e) => Err(e),
            Ok(value) => eval_unary_spec(op, value),
        },
        NodeView::Binary { left, op, right } => match eval_spec(*left, env, floats) {
            Err(e) => Err(e),
            Ok(left_value) => match eval_spec(*right, env, floats) {
                Err(e) => Err(e),
                Ok(right_value) => eval_binary_spec(left_value, op, right_value, floats),
            },
        },
    }
}

/// An arithmetic of floats that is never consulted: it stands in where no operator on
/// floats is reached.
pub open spec fn floats_unused() -> FloatArithmetic {
    |op: NumberBinOp, a: Number, b: Number| ValueView::Null
}

/// Whether a binary operator on these values is one of the arithmetic of floats: both
/// values are numbers, at least one of them a float, and the operator is one on numbers.
pub open spec fn is_float_operation(left: ValueView, op: TokenView, right: ValueView) -> bool {
    &&& left is Int || left is Float
    &&& right is Int || right is Float
    &&& left is Float || right is Float
    &&& number_op_spec(op) is Ok
}

/// Whether the evaluation of a tree reaches an operator on floats.
pub open spec fn needs_floats(node: NodeView, env: Map<Seq<char>, ValueView>) -> bool
    decreases node,
{
    match node {
        NodeView::Leaf(_) => false,
        NodeView::Unary { node, .. } => needs_floats(*node, env),
        NodeView::Binary { left, op, right } => {
            let left_value = eval_spec(*left, env, floats_unused());
            let right_value = eval_spec(*right, env, floats_unused());
            needs_floats(*left, env) || (left_value is Ok && (needs_floats(*right, env) || (
            right_value is Ok && is_float_operation(left_value->Ok_0, op, right_value->Ok_0))))
        },
    }
}

/// Where the evaluation of a tree reaches no operator on floats, its value is the same
/// under every arithmetic of floats.
pub proof fn law_value_without_floats(
    node: NodeView,
    env: Map<Seq<char>, ValueView>,
    floats: FloatArithmetic,
)
    requires
        !needs_floats(node, env),
    ensures
        eval_spec(node, env, floats) == eval_spec(node, env, floats_unused()),
    decreases node,
{
    match node {
        NodeView::Leaf(_) => {},
        NodeView::Unary { node, .. } => {
            law_value_without_floats(*node, env, floats);
        },
        NodeView::Binary { left, op, right } => {
            law_value_without_floats(*left, env, floats);
            if eval_spec(*left, env, floats_unused()) is Ok {
                law_value_without_floats(*right, env, floats);
            }
        },
    }
}

/// The truth of a condition: NULL counts as false, and only a boolean or NULL will do.
pub open spec fn eval_condition_spec(
    node: NodeView,
    env: Map<Seq<char>, ValueView>,
    floats: FloatArithmetic,
) -> Result<bool, ParseErrorView> {
    match eval_spec(node, env, floats) {
        Err(e) => Err(e),
        Ok(ValueView::Bool(b)) => Ok(b),
        Ok(ValueView::Null) => Ok(false),
        Ok(value) => Err(ParseErrorView::InvalidType("bool"@, value)),
    }
}

/// The view of a value or the error in its place.
pub open spec fn value_result_view(r: Result<NodeValue, ParseError>) -> Result<
    ValueView,
    ParseErrorView,
> {
    match r {
        Ok(value) => Ok(value@),
        Err(e) => Err(e@),
    }
}

/// The view of a truth value or the error in its place.
pub open spec fn condition_result_view(r: Result<bool, ParseError>) -> Result<
    bool,
    ParseErrorView,
> {
    match r {
        Ok(b) => Ok(b),
        Err(e) => Err(e@),
    }
}

/// Evaluates a condition: the value of the tree, with NULL counted as false.
/// `float_op` computes the operators on floats.
pub fn evaluate_binary_node<A: Fn(NumberBinOp, Number, Number) -> NodeValue>(
    node: &Node,
    identifier_map: &StringHashMap<NodeValue>,
    float_op: &A,
) -> (r: Result<bool, ParseError>)
    requires
        float_op_total(float_op),
    ensures
        forall|floats: FloatArithmetic| #[trigger]
            computes_floats_as(float_op, floats) ==> condition_result_view(r)
                == eval_condition_spec(node@, env_view(identifier_map@), floats),
        !needs_floats(node@, env_view(identifier_map@)) ==> condition_result_view(r)
            == eval_condition_spec(node@, env_view(identifier_map@), floats_unused()),
{
    let val = match evaluate_node(node, identifier_map, float_op) {
        Ok(val) => val,
        Err(e) => {
            return Err(e);
        },
    };
    match val {
        NodeValue::Bool(b) => Ok(b),
        NodeValue::Null => Ok(false),
        _ => Err(ParseError::InvalidType(String::from_str("bool"), val)),
    }
}

/// Evaluates an expression tree over the values of its identifiers.
/// `float_op` computes the operators on floats.
pub fn evaluate_node<A: Fn(NumberBinOp, Number, Number) -> NodeValue>(
    node: &Node,
    identifier_map: &StringHashMap<NodeValue>,
    float_op: &A,
) -> (r: Result<NodeValue, ParseError>)
    requires
        float_op_total(float_op),
    ensures
        forall|floats: FloatArithmetic| #[trigger]
            computes_floats_as(float_op, floats) ==> value_result_view(r) == eval_spec(
                node@,
                env_view(identifier_map@),
                floats,
            ),
        !needs_floats(node@, env_view(identifier_map@)) ==> value_result_view(r) == eval_spec(
            node@,
            env_view(identifier_map@),
            floats_unused(),
        ),
    decreases node,
{
    match node {
        Node::Leaf(token) => evaluate_leaf(token, identifier_map),
        Node::Unary { op, node } => {
            let node_value = match evaluate_node(node, identifier_map, float_op) {
                Ok(value) => value,
                Err(e) => {
                    return Err(e);
                },
            };
            evaluate_unary(op, node_value)
        },
        Node::Binary { left, op, right } => {
            let left_value = match evaluate_node(left, identifier_map, float_op) {
                Ok(value) => value,
                Err(e) => {
                    return Err(e);
                },
            };
            let right_value = match evaluate_node(right, identifier_map, float_op) {
                Ok(value) => value,
                Err(e) => {
                    return Err(e);
                },
            };
            evaluate_binary(&left_value, op, &right_value, float_op)
        },
    }
}

/// Applies a binary operator to two values; the left value decides which operators are
/// accepted.
pub fn evaluate_binary<A: Fn(NumberBinOp, Number, Number) -> NodeValue>(
    left_value: &NodeValue,
    op: &LexerToken,
    right_value: &NodeValue,
    float_op: &A,
) -> (r: Result<NodeValue, ParseError>)
    requires
        float_op_total(float_op),
    ensures
        forall|floats: FloatArithmetic| #[trigger]
            computes_floats_as(float_op, floats) ==> value_result_view(r) == eval_binary_spec(
                left_value@,
                op@,
                right_value@,
                floats,
            ),
        !is_float_operation(left_value@, op@, right_value@) ==> value_result_view(r)
            == eval_binary_spec(left_value@, op@, right_value@, floats_unused()),
{
    match left_value {
        NodeValue::Bool(_) => {
            match BoolBinOp::try_from(op) {
                Ok(bool_op) => evaluate_bool_op(left_value, right_value, bool_op),
                Err(e) => Err(e),
            }
        },
        NodeValue::String(_) => {
            match StringOp::try_from(op) {
                Ok(string_op) => evaluate_string_op(left_value, right_value, string_op),
                Err(e) => Err(e),
            }
        },
        NodeValue::Int(_) | NodeValue::Float(_) => {
            match NumberBinOp::try_from(op) {
                Ok(number_op) => evaluate_binary_number_op(
                    left_value,
                    right_value,
                    number_op,
                    float_op,
                ),
                Err(e) => Err(e),
            }
        },
        NodeValue::Null => {
            let is_equals = match op {
                LexerToken::CompareOp(text) => str_equal(text.as_str(), "="),
                _ => false,
            };
            let is_differs = match op {
                LexerToken::CompareOp(text) => str_equal(text.as_str(), "<>"),
                _ => false,
            };
            proof {
                reveal_strlit("=");
                reveal_strlit("<>");
            }
            if is_equals {
                Ok(NodeValue::Bool(right_value.is_null()))
            } else if is_differs {
                Ok(NodeValue::Bool(!right_value.is_null()))
            } else {
                Ok(NodeValue::Null)
            }
        },
    }
}

impl NodeValue {
    /// Whether the value is NULL.
    pub fn is_null(&self) -> (r: bool)
        ensures
            r == (self@ is Null),
    {
        match self {
            NodeValue::Null => true,
            _ => false,
        }
    }
}

fn evaluate_leaf(token: &LexerToken, identifier_map: &StringHashMap<NodeValue>) -> (r: Result<
    NodeValue,
    ParseError,
>)
    ensures
        value_result_view(r) == eval_leaf_spec(token@, env_view(identifier_map@)),
{
    match token {
        LexerToken::BoolLiteral(value) => Ok(NodeValue::Bool(*value)),
        LexerToken::StringLiteral(value) => Ok(NodeValue::String(value.clone())),
        LexerToken::NumberLiteral(value) => Ok(NodeValue::Int(*value)),
        LexerToken::FloatNumberLiteral(value) => Ok(NodeValue::Float(*value)),
        LexerToken::Identifier(id) => match identifier_map.get(id.as_str()) {
            None => Err(ParseError::IdentifierNotFound(id.clone())),
            Some(value) => Ok(value.clone()),
        },
        LexerToken::Null => Ok(NodeValue::Null),
        _ => Err(ParseError::UnexpectedToken(String::from_str("leaf token"), token.clone())),
    }
}

fn evaluate_unary(op: &LexerToken, node_value: NodeValue) -> (r: Result<NodeValue, ParseError>)
    ensures
        value_result_view(r) == eval_unary_spec(op@, node_value@),
{
    match op {
        LexerToken::Not | LexerToken::ExclamationMark => match node_value {
            NodeValue::Bool(value) => Ok(NodeValue::Bool(!value)),
            NodeValue::Null => Ok(NodeValue::Null),
            _ => Err(ParseError::InvalidType(String::from_str("bool"), node_value)),
        },
        LexerToken::Minus => match node_value {
            NodeValue::Int(value) => Ok(NodeValue::Int(0i32.wrapping_sub(value))),
            NodeValue::Float(value) => Ok(NodeValue::Float(value ^ 0x8000_0000_0000_0000)),
            NodeValue::Null => Ok(NodeValue::Null),
            _ => Err(ParseError::InvalidType(String::from_str("int, float"), node_value)),
        },
        _ => Err(ParseError::InvalidOperator(String::from_str("!, not, -"), op.clone())),
    }
}

fn evaluate_binary_number_op<A: Fn(NumberBinOp, Number, Number) -> NodeValue>(
    left_value: &NodeValue,
    right_value: &NodeValue,
    op: NumberBinOp,
    float_op: &A,
) -> (r: Result<NodeValue, ParseError>)
    requires
        float_op_total(float_op),
        left_value@ is Int || left_value@ is Float,
    ensures
        forall|floats: FloatArithmetic| #[trigger]
            computes_floats_as(float_op, floats) ==> value_result_view(r) == eval_number_op_spec(
                number_of(left_value@),
                right_value@,
                op,
                floats,
            ),
        !((right_value@ is Int || right_value@ is Float) && (left_value@ is Float
            || right_value@ is Float)) ==> value_result_view(r) == eval_number_op_spec(
            number_of(left_value@),
            right_value@,
            op,
            floats_unused(),
        ),
{
    let left = match left_value {
        NodeValue::Int(i) => Number::Int(*i),
        NodeValue::Float(f) => Number::Float(*f),
        _ => unreached(),
    };
    match (left, right_value) {
        (Number::Int(i1), NodeValue::Int(i2)) => evaluate_int_number_op(i1, *i2, op),
        (_, NodeValue::Int(i2)) => {
            assert(float_op.requires((op, left, Number::Int(*i2))));
            Ok(float_op(op, left, Number::Int(*i2)))
        },
        (_, NodeValue::Float(f2)) => {
            assert(float_op.requires((op, left, Number::Float(*f2))));
            Ok(float_op(op, left, Number::Float(*f2)))
        },
        (_, NodeValue::Null) => Ok(NodeValue::Null),
        _ => Err(ParseError::InvalidType(String::from_str("int, float"), right_value.clone())),
    }
}

fn evaluate_int_number_op(i1: i32, i2: i32, op: NumberBinOp) -> (r: Result<NodeValue, ParseError>)
    ensures
        value_result_view(r) == eval_int_op_spec(i1, i2, op),
{
    match op {
        NumberBinOp::Add => Ok(NodeValue::Int(i1.wrapping_add(i2))),
        NumberBinOp::Sub => Ok(NodeValue::Int(i1.wrapping_sub(i2))),
        NumberBinOp::Mul => Ok(NodeValue::Int(i1.wrapping_mul(i2))),
        NumberBinOp::Div => {
            if i2 == 0 {
                Err(
                    ParseError::InvalidType(
                        String::from_str("non-zero divisor"),
                        NodeValue::Int(i2),
                    ),
                )
            } else {
                match i1.checked_div(i2) {
                    Some(q) => Ok(NodeValue::Int(q)),
                    None => Ok(NodeValue::Int(i1)),
                }
            }
        },
        NumberBinOp::Mod => {
            if i2 == 0 {
                Err(
                    ParseError::InvalidType(
                        String::from_str("non-zero divisor"),
                        NodeValue::Int(i2),
                    ),
                )
            } else {
                match i1.checked_rem(i2) {
                    Some(r) => Ok(NodeValue::Int(r)),
                    None => Ok(NodeValue::Int(0)),
                }
            }
        },
        NumberBinOp::Greater => Ok(NodeValue::Bool(i1 > i2)),
        NumberBinOp::Less => Ok(NodeValue::Bool(i1 < i2)),
        NumberBinOp::GreaterEqual => Ok(NodeValue::Bool(i1 >= i2)),
        NumberBinOp::LessEqual => Ok(NodeValue::Bool(i1 <= i2)),
        NumberBinOp::Equal => Ok(NodeValue::Bool(i1 == i2)),
        NumberBinOp::NotEqual => Ok(NodeValue::Bool(i1 != i2)),
    }
}

fn evaluate_string_op(left_value: &NodeValue, right_value: &NodeValue, op: StringOp) -> (r: Result<
    NodeValue,
    ParseError,
>)
    requires
        left_value@ is String,
    ensures
        value_result_view(r) == eval_string_op_spec(left_value@->String_0, right_value@, op),
{
    match (left_value, right_value) {
        (NodeValue::String(s1), NodeValue::String(s2)) => match op {
            StringOp::Concat => Ok(NodeValue::String(s1.clone().concat(s2.as_str()))),
            StringOp::Equal => Ok(NodeValue::Bool(*s1 == *s2)),
            StringOp::NotEqual => Ok(NodeValue::Bool(!(*s1 == *s2))),
        },
        (NodeValue::String(_), NodeValue::Null) => Ok(NodeValue::Null),
        _ => Err(ParseError::InvalidType(String::from_str("string"), right_value.clone())),
    }
}

fn evaluate_bool_op(left_value: &NodeValue, right_value: &NodeValue, op: BoolBinOp) -> (r: Result<
    NodeValue,
    ParseError,
>)
    requires
        left_value@ is Bool,
    ensures
        value_result_view(r) == eval_bool_op_spec(left_value@->Bool_0, right_value@, op),
{
    match (left_value, right_value) {
        (NodeValue::Bool(b1), NodeValue::Bool(b2)) => match op {
            BoolBinOp::And => Ok(NodeValue::Bool(*b1 && *b2)),
            BoolBinOp::Or => Ok(NodeValue::Bool(*b1 || *b2)),
            BoolBinOp::Xor => Ok(NodeValue::Bool(*b1 != *b2)),
            BoolBinOp::Equal => Ok(NodeValue::Bool(*b1 == *b2)),
            BoolBinOp::NotEqual => Ok(NodeValue::Bool(*b1 != *b2)),
        },
        (NodeValue::Bool(_), NodeValue::Null) => Ok(NodeValue::Null),
        _ => Err(ParseError::InvalidType(String::from_str("bool"), right_value.clone())),
    }
}


/// NULL propagates: a unary operator on NULL gives NULL; a binary operator with NULL on the
/// right gives NULL wherever the left value accepts the operator; and with NULL on the left
/// every operator gives NULL but `=` and `<>`, which say whether the right value is NULL.
pub proof fn law_null_propagates(
    left: ValueView,
    op: TokenView,
    right: ValueView,
    floats: FloatArithmetic,
)
    ensures
        (op is Not || op is ExclamationMark || op is Minus) ==> eval_unary_spec(
            op,
            ValueView::Null,
        ) == Ok::<ValueView, ParseErrorView>(ValueView::Null),
        !(left is Null) && eval_binary_spec(left, op, ValueView::Null, floats) is Ok
            ==> eval_binary_spec(left, op, ValueView::Null, floats) == Ok::<
            ValueView,
            ParseErrorView,
        >(ValueView::Null),
        eval_binary_spec(ValueView::Null, op, right, floats) == Ok::<ValueView, ParseErrorView>(
            if op == TokenView::CompareOp("="@) {
                ValueView::Bool(right is Null)
            } else if op == TokenView::CompareOp("<>"@) {
                ValueView::Bool(!(right is Null))
            } else {
                ValueView::Null
            },
        ),
{
}

} // verus!
