//! The text form of modules: the lexer, the syntax tree and the parser of
//! assembly text, and the assembler that makes a module of the tree.

pub mod assembler;
pub mod ast;
pub mod declare;
pub mod grammar;
pub mod lexer;
pub mod parser;
