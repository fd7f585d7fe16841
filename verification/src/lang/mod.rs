//! The script language: tokens, syntax tree types and the lexer.
pub mod token;
pub mod ast;
pub mod lexer;
