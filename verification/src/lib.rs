//! A compiler and interpreter for a minimal eight-instruction tape-machine
//! language. The crate holds a lexer, a parser that builds an instruction
//! tree, a tree-walking interpreter over a 30,000-cell byte tape, and a code
//! generator that turns the same tree into a textual intermediate
//! representation for an external backend.

pub mod codegen;
pub mod interpreter;
pub mod lexer;
pub mod parser;
