// Front end of a compiler for a small statically typed language: a lexer, a
// precedence-climbing parser and a semantic analyzer, each specified by spec
// functions that the executable code is proved to compute.
pub mod codegen;
pub mod flags;
pub mod lexer;
pub mod message;
pub mod parser;
pub mod semantics;
pub mod types;
