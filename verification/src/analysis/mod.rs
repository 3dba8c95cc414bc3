//! Semantic analysis: name resolution and type checking.

pub mod symbol;
pub mod type_checker;
