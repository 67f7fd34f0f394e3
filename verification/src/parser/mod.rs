//! C source code parser: tokens and abstract syntax tree.

pub mod ast;
pub mod token;
pub mod lex_spec;
pub mod lex_laws;
pub mod lexer;
pub mod parser;
pub mod parser_laws;
pub mod grammar;
