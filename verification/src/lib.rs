//! A compiler for the Teeny language, targeting TeenyAT assembly.

pub mod analysis;
pub mod codegen;
pub mod arith_lexer;
pub mod cli;
pub mod error;
pub mod lexer;
pub mod parser;
pub mod text;
pub mod visitor;
