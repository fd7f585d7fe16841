//! The assembler: lexer, parser and the assembling of machine code.
pub mod lexer;
pub mod parser;
pub mod assembler;
