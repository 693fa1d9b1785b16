//! The query language: tokenizer, lexer, expression trees, evaluation and query parsing.
pub mod errors;
pub mod expression_tree;
pub mod expression_tree_eval;
pub mod lexer;
pub mod query_parser;
pub mod tokenizer;
