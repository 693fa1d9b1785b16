//! Expression trees: operator precedence by added parentheses, and the tree parser.
use vstd::prelude::*;
use vstd::string::*;
use crate::parser::errors::{ParseError, ParseErrorView};
use crate::parser::lexer::{tokens_view, LexerToken, TokenView};

verus! {

/// A node of an expression tree.
#[derive(Debug, PartialEq)]
pub enum Node {
    Leaf(LexerToken),
    Binary { left: Box<Node>, op: LexerToken, right: Box<Node> },
    Unary { op: LexerToken, node: Box<Node> },
}

/// What a `Node` is, over the views of its tokens.
pub enum NodeView {
    Leaf(TokenView),
    Binary { left: Box<NodeView>, op: TokenView, right: Box<NodeView> },
    Unary { op: TokenView, node: Box<NodeView> },
}

/// The view of a node: the same tree over the views of its tokens.
pub open spec fn node_view(node: Node) -> NodeView
    decreases node,
{
    match node {
        Node::Leaf(token) => NodeView::Leaf(token@),
        Node::Binary { left, op, right } => NodeView::Binary {
            left: Box::new(node_view(*left)),
            op: op@,
            right: Box::new(node_view(*right)),
        },
        Node::Unary { op, node } => NodeView::Unary { op: op@, node: Box::new(node_view(*node)) },
    }
}

impl View for Node {
    type V = NodeView;

    open spec fn view(&self) -> NodeView {
        node_view(*self)
    }
}

impl NodeView {
    /// The names of the identifier leaves, from left to right.
    pub open spec fn identifiers(self) -> Seq<Seq<char>>
        decreases self,
    {
        match self {
            NodeView::Leaf(TokenView::Identifier(name)) => seq![name],
            NodeView::Leaf(_) => Seq::empty(),
            NodeView::Binary { left, right, .. } => left.identifiers() + right.identifiers(),
            NodeView::Unary { node, .. } => node.identifiers(),
        }
    }
}

/// The texts of a sequence of strings.
pub open spec fn strings_view(strings: Seq<String>) -> Seq<Seq<char>> {
    strings.map_values(|s: String| s@)
}

impl Node {
    /// A binary node over two operands.
    pub fn new_binary(left: Node, op: LexerToken, right: Node) -> (r: Self)
        ensures
            r == (Node::Binary { left: Box::new(left), op, right: Box::new(right) }),
    {
        Node::Binary { left: Box::new(left), op, right: Box::new(right) }
    }

    /// A unary node over one operand.
    pub fn new_unary(op: LexerToken, node: Node) -> (r: Self)
        ensures
            r == (Node::Unary { op, node: Box::new(node) }),
    {
        Node::Unary { op, node: Box::new(node) }
    }

    /// Adds the name of every identifier leaf to `identifiers`, from left to right.
    pub fn collect_identifiers(&self, identifiers: &mut Vec<String>)
        ensures
            strings_view(final(identifiers)@) == strings_view(old(identifiers)@)
                + self@.identifiers(),
        decreases self,
    {
        match self {
            Node::Leaf(LexerToken::Identifier(identifier)) => {
                identifiers.push(identifier.clone());
                assert(strings_view(identifiers@) =~= strings_view(old(identifiers)@)
                    + self@.identifiers());
            },
            Node::Leaf(_) => {
                assert(strings_view(identifiers@) =~= strings_view(old(identifiers)@)
                    + self@.identifiers());
            },
            Node::Binary { left, right, .. } => {
                left.collect_identifiers(identifiers);
                right.collect_identifiers(identifiers);
                assert(strings_view(identifiers@) =~= strings_view(old(identifiers)@)
                    + self@.identifiers());
            },
            Node::Unary { node, .. } => {
                node.collect_identifiers(identifiers);
            },
        }
    }
}

/// `count` opening parentheses.
pub open spec fn opens(count: nat) -> Seq<TokenView> {
    Seq::new(count, |i: int| TokenView::ParOpen)
}

/// `count` closing parentheses.
pub open spec fn closes(count: nat) -> Seq<TokenView> {
    Seq::new(count, |i: int| TokenView::ParClose)
}

/// `acc` with `token` set between `level` closing and `level` opening parentheses.
pub open spec fn split_at_level(acc: Seq<TokenView>, token: TokenView, level: nat) -> Seq<
    TokenView,
> {
    acc + closes(level) + seq![token] + opens(level)
}

/// What one token adds to the rewritten stream `acc`. An operator closes down to its level
/// and opens again behind it: `* / %` bind tightest (level 1), then `+ -` (2), comparisons
/// (3) and logical operators (4). A `+` or `-` right behind an opening parenthesis is a sign
/// and stays as it is. A parenthesis of the source opens or closes all four levels.
pub open spec fn inject_token(acc: Seq<TokenView>, token: TokenView) -> Seq<TokenView> {
    match token {
        TokenView::LogicalOp(_) => split_at_level(acc, token, 4),
        TokenView::CompareOp(_) => split_at_level(acc, token, 3),
        TokenView::Plus | TokenView::Minus => if acc.len() > 0 && acc.last()
            == TokenView::ParOpen {
            acc.push(token)
        } else {
            split_at_level(acc, token, 2)
        },
        TokenView::Star | TokenView::Slash | TokenView::Percent => split_at_level(acc, token, 1),
        TokenView::ParOpen => acc.push(token) + opens(4),
        TokenView::ParClose => acc + closes(4) + seq![token],
        _ => acc.push(token),
    }
}

/// The rewritten stream after the first `count` tokens of `tokens`.
pub open spec fn inject_prefix(tokens: Seq<TokenView>, count: nat) -> Seq<TokenView>
    decreases count,
{
    if count == 0 {
        opens(4)
    } else {
        inject_token(inject_prefix(tokens, (count - 1) as nat), tokens[count - 1])
    }
}

/// The token stream with parentheses added so that they alone say how operators bind.
/// A stream of at most two tokens stays as it is.
pub open spec fn with_precedence_parentheses(tokens: Seq<TokenView>) -> Seq<TokenView> {
    if tokens.len() <= 2 {
        tokens
    } else {
        inject_prefix(tokens, tokens.len()) + closes(4)
    }
}

fn push_opens(result: &mut Vec<LexerToken>, count: usize)
    ensures
        tokens_view(final(result)@) == tokens_view(old(result)@) + opens(count as nat),
{
    let mut k: usize = 0;
    assert(tokens_view(result@) =~= tokens_view(old(result)@) + opens(0));
    while k < count
        invariant
            k <= count,
            tokens_view(result@) == tokens_view(old(result)@) + opens(k as nat),
        decreases count - k,
    {
        let ghost before = tokens_view(result@);
        result.push(LexerToken::ParOpen);
        assert(tokens_view(result@) =~= before.push(TokenView::ParOpen));
        assert(tokens_view(result@) =~= tokens_view(old(result)@) + opens((k + 1) as nat));
        k += 1;
    }
}

fn push_closes(result: &mut Vec<LexerToken>, count: usize)
    ensures
        tokens_view(final(result)@) == tokens_view(old(result)@) + closes(count as nat),
{
    let mut k: usize = 0;
    assert(tokens_view(result@) =~= tokens_view(old(result)@) + closes(0));
    while k < count
        invariant
            k <= count,
            tokens_view(result@) == tokens_view(old(result)@) + closes(k as nat),
        decreases count - k,
    {
        let ghost before = tokens_view(result@);
        result.push(LexerToken::ParClose);
        assert(tokens_view(result@) =~= before.push(TokenView::ParClose));
        assert(tokens_view(result@) =~= tokens_view(old(result)@) + closes((k + 1) as nat));
        k += 1;
    }
}

fn push_token(result: &mut Vec<LexerToken>, token: LexerToken)
    ensures
        tokens_view(final(result)@) == tokens_view(old(result)@).push(token@),
{
    result.push(token);
    assert(tokens_view(result@) =~= tokens_view(old(result)@).push(token@));
}

fn push_at_level(result: &mut Vec<LexerToken>, token: LexerToken, level: usize)
    ensures
        tokens_view(final(result)@) == split_at_level(
            tokens_view(old(result)@),
            token@,
            level as nat,
        ),
{
    push_closes(result, level);
    push_token(result, token);
    push_opens(result, level);
    assert(tokens_view(result@) =~= split_at_level(
        tokens_view(old(result)@),
        token@,
        level as nat,
    ));
}

fn ends_with_open(result: &Vec<LexerToken>) -> (r: bool)
    ensures
        r == (tokens_view(result@).len() > 0 && tokens_view(result@).last()
            == TokenView::ParOpen),
{
    let n = result.len();
    if n == 0 {
        false
    } else {
        match &result[n - 1] {
            LexerToken::ParOpen => true,
            _ => false,
        }
    }
}

/// Rewrites a token stream so that parentheses alone say how its operators bind.
pub fn fix_operator_precedence(expression: Vec<LexerToken>) -> (r: Vec<LexerToken>)
    ensures
        tokens_view(r@) == with_precedence_parentheses(tokens_view(expression@)),
{
    let n = expression.len();
    if n <= 2 {
        return expression;
    }
    let ghost source = tokens_view(expression@);
    let mut result: Vec<LexerToken> = Vec::new();
    push_opens(&mut result, 4);
    assert(tokens_view(result@) =~= opens(4));
    let mut k: usize = 0;
    while k < n
        invariant
            n == expression@.len(),
            k <= n,
            source == tokens_view(expression@),
            tokens_view(result@) == inject_prefix(source, k as nat),
        decreases n - k,
    {
        let token = expression[k].clone();
        let ghost before = tokens_view(result@);
        assert(token@ == source[k as int]);
        match &token {
            LexerToken::LogicalOp(_) => {
                push_at_level(&mut result, token, 4);
            },
            LexerToken::CompareOp(_) => {
                push_at_level(&mut result, token, 3);
            },
            LexerToken::Plus | LexerToken::Minus => {
                if ends_with_open(&result) {
                    push_token(&mut result, token);
                } else {
                    push_at_level(&mut result, token, 2);
                }
            },
            LexerToken::Star | LexerToken::Slash | LexerToken::Percent => {
                push_at_level(&mut result, token, 1);
            },
            LexerToken::ParOpen => {
                push_token(&mut result, token);
                push_opens(&mut result, 4);
            },
            LexerToken::ParClose => {
                push_closes(&mut result, 4);
                push_token(&mut result, token);
                assert(tokens_view(result@) =~= before + closes(4) + seq![TokenView::ParClose]);
            },
            _ => {
                push_token(&mut result, token);
            },
        }
        assert(tokens_view(result@) == inject_token(before, source[k as int]));
        k += 1;
    }
    push_closes(&mut result, 4);
    result
}

/// Whether a token is a binary operator.
pub open spec fn is_binary_operator(token: TokenView) -> bool {
    token is CompareOp || token is LogicalOp || token is Star || token is Plus || token is Minus
        || token is Slash || token is Percent
}

/// Whether a token is a unary operator.
pub open spec fn is_unary_operator(token: TokenView) -> bool {
    token is Minus || token is Not || token is ExclamationMark
}

/// Whether a token is a literal or an identifier.
pub open spec fn is_operand(token: TokenView) -> bool {
    token is Null || token is StringLiteral || token is NumberLiteral || token is BoolLiteral
        || token is FloatNumberLiteral || token is Identifier
}

/// What a parsing step produces: a node and the position behind it.
pub type Parsed = Result<(NodeView, int), ParseErrorView>;

/// With `parenthesised`, demands a closing parenthesis behind a parsed expression.
pub open spec fn close_parenthesis(tokens: Seq<TokenView>, parsed: Parsed, parenthesised: bool)
    -> Parsed {
    match parsed {
        Err(e) => Err(e),
        Ok((node, next)) => if !parenthesised {
            Ok((node, next))
        } else if 0 <= next < tokens.len() && tokens[next] == TokenView::ParClose {
            Ok((node, next + 1))
        } else {
            Err(ParseErrorView::UnfinishedParenthesis)
        },
    }
}

/// An expression that starts at `index`: a unary operator and its operand, a literal or
/// identifier, or an expression in parentheses, each taken as far as binary operators
/// extend it.
pub open spec fn parse_start_spec(tokens: Seq<TokenView>, index: int, parenthesised: bool)
    -> Parsed
    decreases tokens.len() - index, 1int,
{
    if index < 0 || index >= tokens.len() {
        Err(ParseErrorView::UnexpectedQueryEnding)
    } else {
        let head = tokens[index];
        if is_unary_operator(head) {
            close_parenthesis(
                tokens,
                match parse_start_spec(tokens, index + 1, false) {
                    Err(e) => Err(e),
                    Ok((node, next)) => Ok(
                        (NodeView::Unary { op: head, node: Box::new(node) }, next),
                    ),
                },
                parenthesised,
            )
        } else if is_operand(head) {
            close_parenthesis(
                tokens,
                parse_leaf_or_binary_spec(tokens, index + 1, NodeView::Leaf(head)),
                parenthesised,
            )
        } else if head == TokenView::ParOpen {
            close_parenthesis(
                tokens,
                match parse_start_spec(tokens, index + 1, true) {
                    Err(e) => Err(e),
                    Ok((node, next)) => if index < next <= tokens.len() {
                        parse_leaf_or_binary_spec(tokens, next, node)
                    } else {
                        Ok((node, next))
                    },
                },
                parenthesised,
            )
        } else {
            Err(
                ParseErrorView::UnexpectedToken(
                    "identifier, literal, unary operator, ("@,
                    head,
                ),
            )
        }
    }
}

/// `left` itself where no binary operator stands at `index`; else the binary node of `left`,
/// the operator and the expression behind it.
pub open spec fn parse_leaf_or_binary_spec(tokens: Seq<TokenView>, index: int, left: NodeView)
    -> Parsed
    decreases tokens.len() - index, 0int,
{
    if index < 0 || index >= tokens.len() {
        Ok((left, index))
    } else if is_binary_operator(tokens[index]) {
        match parse_start_spec(tokens, index + 1, false) {
            Err(e) => Err(e),
            Ok((right, next)) => Ok(
                (
                    NodeView::Binary {
                        left: Box::new(left),
                        op: tokens[index],
                        right: Box::new(right),
                    },
                    next,
                ),
            ),
        }
    } else {
        Ok((left, index))
    }
}

/// Extends `node` by binary operators until the tokens are used up. A token that is no
/// operator cannot follow an expression.
pub open spec fn parse_rest_spec(tokens: Seq<TokenView>, index: int, node: NodeView) -> Result<
    NodeView,
    ParseErrorView,
>
    decreases tokens.len() - index,
{
    if index < 0 || index >= tokens.len() {
        Ok(node)
    } else {
        match parse_leaf_or_binary_spec(tokens, index, node) {
            Err(e) => Err(e),
            Ok((extended, next)) => if index < next <= tokens.len() {
                parse_rest_spec(tokens, next, extended)
            } else {
                Err(ParseErrorView::UnexpectedToken("operator"@, tokens[index]))
            },
        }
    }
}

/// The tree of a token stream that already holds its parentheses; none for no tokens.
pub open spec fn parse_tokens_spec(tokens: Seq<TokenView>) -> Result<
    Option<NodeView>,
    ParseErrorView,
> {
    if tokens.len() == 0 {
        Ok(None)
    } else {
        match parse_start_spec(tokens, 0, false) {
            Err(e) => Err(e),
            Ok((node, next)) => match parse_rest_spec(tokens, next, node) {
                Err(e) => Err(e),
                Ok(tree) => Ok(Some(tree)),
            },
        }
    }
}

/// The expression tree of a token stream, with the usual precedence of operators.
pub open spec fn parse_tree_spec(tokens: Seq<TokenView>) -> Result<
    Option<NodeView>,
    ParseErrorView,
> {
    parse_tokens_spec(with_precedence_parentheses(tokens))
}

/// The view of a parsed tree or the error in its place.
pub open spec fn tree_result_view(r: Result<Option<Node>, ParseError>) -> Result<
    Option<NodeView>,
    ParseErrorView,
> {
    match r {
        Ok(Some(node)) => Ok(Some(node@)),
        Ok(None) => Ok(None),
        Err(e) => Err(e@),
    }
}

/// Parses a token stream into an expression tree. No tokens give no tree.
pub fn parse_tree(expression: Vec<LexerToken>) -> (r: Result<Option<Node>, ParseError>)
    ensures
        tree_result_view(r) == parse_tree_spec(tokens_view(expression@)),
{
    let expression = fix_operator_precedence(expression);
    let mut parser = ExpressionTreeParser::from(expression);
    parser.parse()
}

struct ExpressionTreeParser {
    tokens: Vec<LexerToken>,
    index: usize,
}

impl ExpressionTreeParser {
    spec fn stream(&self) -> Seq<TokenView> {
        tokens_view(self.tokens@)
    }

    spec fn parsed(&self, before: &Self, r: Result<Node, ParseError>) -> Parsed {
        match r {
            Ok(node) => Ok((node@, self.index as int)),
            Err(e) => Err(e@),
        }
    }

    fn from(tokens: Vec<LexerToken>) -> (r: Self)
        ensures
            r.tokens == tokens,
            r.index == 0,
    {
        ExpressionTreeParser { tokens, index: 0 }
    }

    fn advance(&mut self)
        requires
            old(self).index < old(self).tokens@.len(),
        ensures
            final(self).tokens == old(self).tokens,
            final(self).index == old(self).index + 1,
    {
        assert(self.tokens@.len() == self.tokens.len());
        self.index += 1;
    }

    fn head(&self) -> (r: Option<&LexerToken>)
        ensures
            match r {
                Some(token) => self.index < self.tokens@.len() && *token
                    == self.tokens@[self.index as int] && token@ == self.stream()[self.index as int],
                None => self.index >= self.tokens@.len(),
            },
    {
        if self.index < self.tokens.len() {
            Some(&self.tokens[self.index])
        } else {
            None
        }
    }

    fn eof(&self) -> (r: bool)
        ensures
            r == (self.index >= self.tokens@.len()),
    {
        self.index >= self.tokens.len()
    }

    fn parse(&mut self) -> (r: Result<Option<Node>, ParseError>)
        requires
            old(self).index == 0,
        ensures
            tree_result_view(r) == parse_tokens_spec(old(self).stream()),
    {
        if self.tokens.len() == 0 {
            return Ok(None);
        }
        let mut node = match self.parse_start(false) {
            Ok(node) => node,
            Err(e) => {
                return Err(e);
            },
        };
        while !self.eof()
            invariant
                self.tokens == old(self).tokens,
                self.index <= self.tokens@.len(),
                parse_tokens_spec(self.stream()) == (match parse_rest_spec(
                    self.stream(),
                    self.index as int,
                    node@,
                ) {
                    Err(e) => Err(e),
                    Ok(tree) => Ok(Some(tree)),
                }),
            decreases self.tokens@.len() - self.index,
        {
            let before = self.index;
            node = match self.parse_leaf_or_binary(node) {
                Ok(node) => node,
                Err(e) => {
                    return Err(e);
                },
            };
            if self.index == before {
                return Err(
                    ParseError::UnexpectedToken(
                        String::from_str("operator"),
                        self.tokens[before].clone(),
                    ),
                );
            }
        }
        Ok(Some(node))
    }

    fn parse_start(&mut self, parenthesised: bool) -> (r: Result<Node, ParseError>)
        requires
            old(self).index <= old(self).tokens@.len(),
        ensures
            final(self).tokens == old(self).tokens,
            final(self).index <= final(self).tokens@.len(),
            final(self).index >= old(self).index,
            r is Ok ==> final(self).index > old(self).index,
            final(self).parsed(old(self), r) == parse_start_spec(
                old(self).stream(),
                old(self).index as int,
                parenthesised,
            ),
        decreases old(self).tokens@.len() - old(self).index, 1int,
    {
        let head = match self.head() {
            Some(token) => token.clone(),
            None => {
                return Err(ParseError::UnexpectedQueryEnding);
            },
        };
        let parsed = match head {
            LexerToken::Minus | LexerToken::Not | LexerToken::ExclamationMark => {
                self.advance();
                self.parse_unary(head)
            },
            LexerToken::Null
            | LexerToken::StringLiteral(_)
            | LexerToken::NumberLiteral(_)
            | LexerToken::BoolLiteral(_)
            | LexerToken::FloatNumberLiteral(_)
            | LexerToken::Identifier(_) => {
                self.advance();
                self.parse_leaf_or_binary(Node::Leaf(head))
            },
            LexerToken::ParOpen => {
                self.advance();
                match self.parse_start(true) {
                    Ok(par_node) => self.parse_leaf_or_binary(par_node),
                    Err(e) => Err(e),
                }
            },
            _ => Err(
                ParseError::UnexpectedToken(
                    String::from_str("identifier, literal, unary operator, ("),
                    head,
                ),
            ),
        };
        let node = match parsed {
            Ok(node) => node,
            Err(e) => {
                return Err(e);
            },
        };
        if parenthesised {
            match self.head() {
                Some(LexerToken::ParClose) => {
                    self.advance();
                },
                _ => {
                    return Err(ParseError::UnfinishedParenthesis);
                },
            }
        }
        Ok(node)
    }

    fn parse_leaf_or_binary(&mut self, left: Node) -> (r: Result<Node, ParseError>)
        requires
            old(self).index <= old(self).tokens@.len(),
        ensures
            final(self).tokens == old(self).tokens,
            final(self).index <= final(self).tokens@.len(),
            final(self).index >= old(self).index,
            final(self).parsed(old(self), r) == parse_leaf_or_binary_spec(
                old(self).stream(),
                old(self).index as int,
                left@,
            ),
        decreases old(self).tokens@.len() - old(self).index, 0int,
    {
        let head = match self.head() {
            Some(token) => token.clone(),
            None => {
                return Ok(left);
            },
        };
        match head {
            LexerToken::CompareOp(_)
            | LexerToken::LogicalOp(_)
            | LexerToken::Star
            | LexerToken::Plus
            | LexerToken::Minus
            | LexerToken::Slash
            | LexerToken::Percent => {
                self.advance();
                match self.parse_start(false) {
                    Ok(right) => Ok(
                        Node::Binary { left: Box::new(left), op: head, right: Box::new(right) },
                    ),
                    Err(e) => Err(e),
                }
            },
            _ => Ok(left),
        }
    }

    fn parse_unary(&mut self, unary_op: LexerToken) -> (r: Result<Node, ParseError>)
        requires
            old(self).index <= old(self).tokens@.len(),
        ensures
            final(self).tokens == old(self).tokens,
            final(self).index <= final(self).tokens@.len(),
            final(self).index >= old(self).index,
            r is Ok ==> final(self).index > old(self).index,
            final(self).parsed(old(self), r) == (match parse_start_spec(
                old(self).stream(),
                old(self).index as int,
                false,
            ) {
                Err(e) => Err(e),
                Ok((node, next)) => Ok(
                    (NodeView::Unary { op: unary_op@, node: Box::new(node) }, next),
                ),
            }),
        decreases old(self).tokens@.len() - old(self).index, 2int,
    {
        match self.parse_start(false) {
            Ok(node) => Ok(Node::Unary { op: unary_op, node: Box::new(node) }),
            Err(e) => Err(e),
        }
    }
}

} // verus!
