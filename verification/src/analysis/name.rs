//! Name analysis: the program written out with its names resolved, or the
//! names that could not be resolved.

use vstd::prelude::*;
use vstd::string::*;
use crate::analysis::env::{Diagnostic, Env, ErrorType};
use crate::analysis::program::{program_annotated, program_diags, type_error_check};
use crate::format::{add_tabs, add_tabs_spec};
use crate::parser::ast::Program;
use crate::parser::display::{program_text, NamedNode};
use crate::parser::respan::{program_corrected, SpanNode};
use crate::span::{line_bytes, line_lengths, Span};

verus! {

/// What can be wrong with a name.
#[derive(Debug, Clone, Copy, PartialEq, Eq, Structural)]
pub enum NameError {
    BadType,
    MultipleDecl,
    UndefinedDecl,
}

/// One error of name analysis: what is wrong, and where.
#[derive(Debug, Clone, Copy, PartialEq, Eq, Structural)]
pub struct NameDiagnostic {
    pub kind: NameError,
    pub span: Span,
}

/// The name error that a kind of semantic error is, if it is one.
pub open spec fn name_error_of(kind: ErrorType) -> Option<NameError> {
    match kind {
        ErrorType::BadType => Some(NameError::BadType),
        ErrorType::MultipleDecl => Some(NameError::MultipleDecl),
        ErrorType::UndefinedDecl => Some(NameError::UndefinedDecl),
        _ => None,
    }
}

/// The name errors among the diagnostics `diags[..n]`, in order.
pub open spec fn name_errors(diags: Seq<Diagnostic>, n: int) -> Seq<NameDiagnostic>
    decreases n,
{
    if n <= 0 || n > diags.len() {
        Seq::empty()
    } else {
        match name_error_of(diags[n - 1].kind) {
            Some(kind) => name_errors(diags, n - 1).push(
                NameDiagnostic { kind, span: diags[n - 1].span },
            ),
            None => name_errors(diags, n - 1),
        }
    }
}

impl NameError {
    /// The message that goes with the error.
    pub open spec fn spec_message(self) -> Seq<char> {
        match self {
            NameError::BadType => "Invalid type in declaration"@,
            NameError::MultipleDecl => "Multiply declared identifier"@,
            NameError::UndefinedDecl => "Undeclared identifier"@,
        }
    }

    /// The message that goes with the error.
    pub fn message(&self) -> (s: &'static str)
        ensures
            s@ == self.spec_message(),
    {
        match self {
            NameError::BadType => "Invalid type in declaration",
            NameError::MultipleDecl => "Multiply declared identifier",
            NameError::UndefinedDecl => "Undeclared identifier",
        }
    }
}

impl NameDiagnostic {
    /// The line that reports the error: `FATAL <span>: <message>`.
    pub open spec fn spec_text(self) -> Seq<char> {
        "FATAL "@ + self.span.spec_text() + ": "@ + self.kind.spec_message()
    }

    /// The line that reports the error.
    pub fn to_text(&self) -> (s: String)
        ensures
            s@ == self.spec_text(),
    {
        let mut s = String::from_str("FATAL ");
        self.span.append_to(&mut s);
        s.append(": ");
        s.append(self.kind.message());
        s
    }
}

/// The name error that a kind of semantic error is, if it is one.
pub fn as_name_error(kind: ErrorType) -> (r: Option<NameError>)
    ensures
        r == name_error_of(kind),
{
    match kind {
        ErrorType::BadType => Some(NameError::BadType),
        ErrorType::MultipleDecl => Some(NameError::MultipleDecl),
        ErrorType::UndefinedDecl => Some(NameError::UndefinedDecl),
        _ => None,
    }
}

/// The name errors among diagnostics, in order.
pub fn filter_name_errors(diags: &Vec<Diagnostic>) -> (r: Vec<NameDiagnostic>)
    ensures
        r@ == name_errors(diags@, diags@.len() as int),
{
    let mut r: Vec<NameDiagnostic> = Vec::new();
    let mut i: usize = 0;
    while i < diags.len()
        invariant
            i <= diags@.len(),
            r@ == name_errors(diags@, i as int),
        decreases diags@.len() - i,
    {
        match as_name_error(diags[i].kind) {
            Some(kind) => {
                r.push(NameDiagnostic { kind, span: diags[i].span });
            },
            None => {},
        }
        i += 1;
    }
    r
}

/// What name analysis makes of the program `o` whose source text is
/// `raw`, given the program `c` with its spans corrected and the program
/// `a` that the analysis of `c` yields: the text of `a` with its names
/// tagged, indented, when the analysis raised no name error; or else the
/// name errors.
pub open spec fn named_result(c: Program, a: Program) -> Result<Seq<char>, Seq<NameDiagnostic>> {
    let diags = program_diags(c, Env::initial());
    let errors = name_errors(diags, diags.len() as int);
    if errors.len() == 0 {
        Ok(add_tabs_spec(program_text(a, true)))
    } else {
        Err(errors)
    }
}

/// Writes out a program with every declared name tagged with its type and
/// every location with the type that it resolved to; or gives the names
/// that are declared with a `void` type, declared twice, or not declared
/// at all, each with its rows and columns in the source text `raw_input`.
pub fn named_unparse(prog: Box<Program>, raw_input: String) -> (r: Result<String, Vec<NameDiagnostic>>)
    ensures
        exists|c: Program, a: Program|
            program_corrected(*prog, line_lengths(raw_input@, 0), c) && program_annotated(
                c,
                Env::initial(),
                a,
            ) && (match named_result(c, a) {
                Ok(t) => r is Ok && r->Ok_0@ == t,
                Err(e) => r is Err && r->Err_0@ == e,
            }),
{
    let mut tree = prog;
    let lines = line_bytes(raw_input);
    tree.correct_span_rec(&lines);
    let ghost c = *tree;
    let diags = type_error_check(&mut *tree);
    let ghost a = *tree;
    let errors = filter_name_errors(&diags);
    let r = if errors.len() == 0 {
        Ok(add_tabs(tree.named_unparse()))
    } else {
        Err(errors)
    };
    proof {
        assert(program_corrected(*prog, line_lengths(raw_input@, 0), c) && program_annotated(
            c,
            Env::initial(),
            a,
        ) && (match named_result(c, a) {
            Ok(t) => r is Ok && r->Ok_0@ == t,
            Err(e) => r is Err && r->Err_0@ == e,
        }));
    }
    r
}

} // verus!
