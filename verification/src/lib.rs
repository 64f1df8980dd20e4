//! ANX: a small statically typed, Java-like language for practicing data
//! structures and algorithms. This crate holds its front end (lexer, parser,
//! semantic analysis) and its tree-walking interpreter.

pub mod ast;
pub mod lexer;
pub mod parser;
pub mod sema;
pub mod interp;
mod text;
