//! The stages in a row: a program goes on to code generation only when
//! the analysis found nothing wrong with it.

use vstd::prelude::*;
use vstd::string::*;
use crate::analysis::env::{Diagnostic, Env};
use crate::analysis::program::{program_annotated, program_diags, type_error_check};
use crate::assembly::backend::{convert_x86, x86_of};
use crate::assembly::generate::{generate, program_classes};
use crate::assembly::symbols::ir_text;
use crate::assembly::three_ac::{program_ir, program_labels};
use crate::assembly::x86::X86Error;
use crate::parser::ast::Program;

verus! {

/// Why a program was not compiled.
#[derive(Debug, PartialEq)]
pub enum CompileError {
    /// The analysis reported these errors; no code was generated.
    Semantic(Vec<Diagnostic>),
    /// The backend refused the three-address code.
    Backend(X86Error),
}

/// The text of the three-address code of an analyzed program.
pub open spec fn code_text(analyzed: Program) -> Seq<char> {
    ir_text(program_ir(analyzed, program_classes(analyzed)))
}

/// Analyzes a program and, if the analysis reports no error, generates
/// its three-address code. A program with errors is analyzed to the end,
/// and all its errors are given back; no code is generated for it.
pub fn compile_3ac(prog: &mut Program) -> (r: Result<String, Vec<Diagnostic>>)
    ensures
        program_annotated(*old(prog), Env::initial(), *final(prog)),
        program_diags(*old(prog), Env::initial()).len() == 0 ==> r is Ok && r->Ok_0@ == code_text(
            *final(prog),
        ) && program_labels(*final(prog), program_classes(*final(prog))) <= usize::MAX,
        program_diags(*old(prog), Env::initial()).len() > 0 ==> r is Err && r->Err_0@
            == program_diags(*old(prog), Env::initial()),
{
    let diags = type_error_check(prog);
    if diags.len() > 0 {
        Err(diags)
    } else {
        Ok(generate(prog).to_text())
    }
}

/// What the backend makes of the three-address code of an analyzed
/// program.
pub open spec fn assembled(analyzed: Program) -> Result<Seq<char>, CompileError> {
    match x86_of(code_text(analyzed)) {
        Ok(t) => Ok(t),
        Err(e) => Err(CompileError::Backend(e)),
    }
}

/// Analyzes a program and, if the analysis reports no error, compiles it
/// to x86-64 assembly.
pub fn compile(prog: &mut Program) -> (r: Result<String, CompileError>)
    ensures
        program_annotated(*old(prog), Env::initial(), *final(prog)),
        program_diags(*old(prog), Env::initial()).len() == 0 ==> (match assembled(*final(prog)) {
            Ok(t) => r is Ok && r->Ok_0@ == t,
            Err(e) => r == Err::<String, CompileError>(e),
        }),
        program_diags(*old(prog), Env::initial()).len() > 0 ==> (r matches Err(
            CompileError::Semantic(d),
        ) && d@ == program_diags(*old(prog), Env::initial())),
{
    match compile_3ac(prog) {
        Ok(ir) => match convert_x86(ir) {
            Ok(text) => Ok(text),
            Err(e) => Err(CompileError::Backend(e)),
        },
        Err(diags) => Err(CompileError::Semantic(diags)),
    }
}

} // verus!
