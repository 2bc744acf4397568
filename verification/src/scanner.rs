//! Turning source text into tokens.

pub mod tokens;
pub mod lexer;
pub mod listing;
pub mod position;
