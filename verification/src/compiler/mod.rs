//! A compiler for a small block-structured language, and an assembler and
//! linker for the machine's instruction set.
pub mod chars;
pub mod codegen;
pub mod diagnostic;
pub mod driver;
pub mod error;
pub mod laws;
pub mod lexer;
pub mod linker;
pub mod names;
pub mod numbers;
pub mod parser;
pub mod protolexer;
pub mod token;
pub mod trees;
pub mod types;
