//! A compiler pipeline for the Drewno Mars language: scanning, parsing,
//! semantic analysis, three-address code generation and x86-64 lowering.

pub mod text;
pub mod scan;
pub mod span;
pub mod scanner;
pub mod parser;
pub mod analysis;
pub mod assembly;
pub mod format;
pub mod pipeline;
