//! Semantic analysis: names, scopes and types.

pub mod table;
pub mod env;
pub mod exp;
pub mod stmt;
pub mod program;
pub mod laws;
pub mod name;
pub mod node;
