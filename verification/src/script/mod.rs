//! HyperTalk scripting: lexer, then parser, producing an AST.

pub mod ast;
pub mod grammar;
pub mod interp;
pub mod lexer;
pub mod parser;
pub mod props;
