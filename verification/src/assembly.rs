//! Code generation: the three-address intermediate code and its lowering
//! to x86-64 assembly.

pub mod ir;
pub mod three_ac;
pub mod emit;
pub mod symbols;
pub mod generate;
pub mod node;
pub mod labels;
pub mod temps;
pub mod jumps;
pub mod parse_ir;
pub mod x86;
pub mod x86_emit;
pub mod backend;
