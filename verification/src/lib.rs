//! Front end of the Monkey language: a tokenizer over a byte buffer and a
//! recursive-descent statement parser that builds a syntax tree while
//! collecting structured errors.
//!
//! Every executable function carries a contract stated over mathematical
//! models: byte sequences for the input, [`token::TokenView`] for tokens,
//! [`ast::statement::StatementView`] for tree nodes and
//! [`parser::ParserView`] for the parser's state.

pub mod buffer;
pub mod token;
pub mod lexer;
pub mod ast;
pub mod parser;
