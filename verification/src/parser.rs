//! The syntax tree and the parsers that build it.

pub mod ast;
pub mod rules;
pub mod trees;
pub mod grammar;
pub mod display;
pub mod respan;
