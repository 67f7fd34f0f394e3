//! A pedagogical C interpreter core: lexer, parser and memory model.

pub mod interpreter;
pub mod memory;
pub mod parser;
pub mod snapshot;
pub mod text;
pub mod ui;
