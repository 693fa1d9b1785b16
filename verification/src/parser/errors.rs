//! Errors of the query language pipeline.
use vstd::prelude::*;
use vstd::string::*;
use crate::parser::expression_tree_eval::{NodeValue, ValueView};
use crate::parser::lexer::{LexerToken, TokenView};

verus! {

/// Why a query text or an expression was rejected.
#[derive(Debug)]
pub enum ParseError {
    /// A character that may not stand at this position (a character index).
    InvalidChar(char, usize),
    /// A character that may not stand in an identifier, and the lexeme that holds it.
    InvalidIdentifier(char, String),
    /// The input ended inside a string literal; holds the unfinished lexeme.
    UnfinishedStringLiteral(String),
    /// What was expected, and the token found in its place.
    UnexpectedToken(String, LexerToken),
    UnexpectedQueryEnding,
    UnfinishedParenthesis,
    InsertQueryValuesMismatch,
    /// The operators that the left operand accepts, and the operator found.
    InvalidOperator(String, LexerToken),
    /// The type that was expected, and the value found.
    InvalidType(String, NodeValue),
    IdentifierNotFound(String),
}

/// What a `ParseError` is, with text as sequences of characters.
pub enum ParseErrorView {
    InvalidChar(char, int),
    InvalidIdentifier(char, Seq<char>),
    UnfinishedStringLiteral(Seq<char>),
    UnexpectedToken(Seq<char>, TokenView),
    UnexpectedQueryEnding,
    UnfinishedParenthesis,
    InsertQueryValuesMismatch,
    InvalidOperator(Seq<char>, TokenView),
    InvalidType(Seq<char>, ValueView),
    IdentifierNotFound(Seq<char>),
}

impl View for ParseError {
    type V = ParseErrorView;

    open spec fn view(&self) -> ParseErrorView {
        match self {
            ParseError::InvalidChar(c, pos) => ParseErrorView::InvalidChar(*c, *pos as int),
            ParseError::InvalidIdentifier(c, s) => ParseErrorView::InvalidIdentifier(*c, s@),
            ParseError::UnfinishedStringLiteral(s) => ParseErrorView::UnfinishedStringLiteral(s@),
            ParseError::UnexpectedToken(s, t) => ParseErrorView::UnexpectedToken(s@, t@),
            ParseError::UnexpectedQueryEnding => ParseErrorView::UnexpectedQueryEnding,
            ParseError::UnfinishedParenthesis => ParseErrorView::UnfinishedParenthesis,
            ParseError::InsertQueryValuesMismatch => ParseErrorView::InsertQueryValuesMismatch,
            ParseError::InvalidOperator(s, t) => ParseErrorView::InvalidOperator(s@, t@),
            ParseError::InvalidType(s, v) => ParseErrorView::InvalidType(s@, v@),
            ParseError::IdentifierNotFound(s) => ParseErrorView::IdentifierNotFound(s@),
        }
    }
}

pub type ParseResult<T> = Result<T, ParseError>;

} // verus!
