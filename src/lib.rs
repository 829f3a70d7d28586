//! Front end of a small expression-and-statement language: a lexer from
//! source text to tokens, and a parser from tokens to a syntax tree, with
//! source locations and aggregated syntax errors.
pub mod ast;
pub mod common;
pub mod error;
pub mod lexer;
pub mod location;
pub mod parser;
pub mod render;
pub mod text;
