//! The analysis as methods of the nodes of the syntax tree.

use vstd::prelude::*;
use vstd::string::*;
use crate::analysis::env::{members_diags, Diagnostic, Env, TypeAnalyzer};
use crate::analysis::exp::{
    analyze_exp,
    analyze_loc,
    binary_annotated,
    binary_diags,
    binary_result,
    call_annotated,
    call_diags,
    call_result,
    eval_binary,
    eval_call,
    eval_unary,
    exp_annotated,
    exp_diags,
    loc_annotated,
    loc_diags,
    loc_result,
    unary_annotated,
    unary_diags,
    unary_result,
};
use crate::analysis::program::{
    analyze_decl,
    analyze_fn,
    analyze_program,
    decl_annotated,
    decl_diags,
    decl_env,
    fn_annotated,
    fn_diags,
    program_annotated,
    program_diags,
    program_env,
};
use crate::analysis::stmt::{
    analyze_block,
    analyze_line,
    analyze_stmt,
    analyze_var_decl,
    block_annotated,
    block_diags,
    line_annotated,
    line_diags,
    stmt_annotated,
    stmt_diags,
    stmt_env,
    var_decl_annotated,
    var_decl_diags,
    var_decl_env,
};
use crate::parser::ast::{
    BinaryExp,
    BlockStmt,
    CallExp,
    ClassDecl,
    Decl,
    Exp,
    FnDecl,
    LineStmt,
    Loc,
    Program,
    Stmt,
    Type,
    TypeKind,
    UnaryExp,
    VarDecl,
};

verus! {

/// A node that is analyzed on its own: a program, a declaration or an
/// expression.
pub trait TypeAnalysisNode: Sized {
    /// The environment that the analysis of the node leaves.
    spec fn env_after(self, env: Env) -> Env;

    /// The diagnostics that the analysis of the node raises, in order.
    spec fn raised(self, env: Env) -> Seq<Diagnostic>;

    /// Whether `after` is the node after analysis.
    spec fn annotated(self, env: Env, after: Self) -> bool;

    /// Analyzes the node: fills the type slots for which a type can be
    /// resolved, changes the environment as the node asks, and reports
    /// what is wrong.
    fn analyze_type(&mut self, analyzer: &mut TypeAnalyzer)
        requires
            old(analyzer).wf(),
        ensures
            final(analyzer).wf(),
            final(analyzer).env() == old(self).env_after(old(analyzer).env()),
            final(analyzer).diags() == old(analyzer).diags() + old(self).raised(
                old(analyzer).env(),
            ),
            old(self).annotated(old(analyzer).env(), *final(self)),
    ;
}

/// A statement, which is analyzed in a function.
pub trait TypeAnalysisStmtNode: Sized {
    /// The environment that the analysis of the statement leaves.
    spec fn env_after(self, env: Env) -> Env;

    /// The diagnostics that the analysis of the statement raises, in a
    /// function whose return type is `ret`.
    spec fn raised(self, env: Env, ret: TypeKind) -> Seq<Diagnostic>;

    /// Whether `after` is the statement after analysis.
    spec fn annotated(self, env: Env, after: Self) -> bool;

    /// Analyzes the statement, in a function whose return type is
    /// `return_type`.
    fn analyze_type(&mut self, analyzer: &mut TypeAnalyzer, return_type: &TypeKind)
        requires
            old(analyzer).wf(),
        ensures
            final(analyzer).wf(),
            final(analyzer).env() == old(self).env_after(old(analyzer).env()),
            final(analyzer).diags() == old(analyzer).diags() + old(self).raised(
                old(analyzer).env(),
                *return_type,
            ),
            old(self).annotated(old(analyzer).env(), *final(self)),
    ;
}

/// A node whose analysis gives a type: an operation, a call or a location.
pub trait EvaluateExpType: Sized {
    /// The type of the node, if analysis resolves one.
    spec fn resolved(self, env: Env) -> Option<Type>;

    /// The diagnostics that the analysis of the node raises, in order.
    spec fn raised(self, env: Env) -> Seq<Diagnostic>;

    /// Whether `after` is the node after analysis.
    spec fn annotated(self, env: Env, after: Self) -> bool;

    /// Analyzes the node and gives back its type, or `Err` when none can
    /// be resolved.
    fn eval_type(&mut self, analyzer: &mut TypeAnalyzer) -> (r: Result<Type, ()>)
        requires
            old(analyzer).wf(),
        ensures
            final(analyzer).wf(),
            final(analyzer).env() == old(analyzer).env(),
            final(analyzer).diags() == old(analyzer).diags() + old(self).raised(
                old(analyzer).env(),
            ),
            old(self).annotated(old(analyzer).env(), *final(self)),
            match old(self).resolved(old(analyzer).env()) {
                Some(t) => r == Ok::<Type, ()>(t),
                None => r is Err,
            },
    ;
}

impl TypeAnalysisNode for Program {
    open spec fn env_after(self, env: Env) -> Env {
        program_env(self, env)
    }

    open spec fn raised(self, env: Env) -> Seq<Diagnostic> {
        program_diags(self, env)
    }

    open spec fn annotated(self, env: Env, after: Program) -> bool {
        program_annotated(self, env, after)
    }

    fn analyze_type(&mut self, analyzer: &mut TypeAnalyzer) {
        analyze_program(self, analyzer);
    }
}

impl TypeAnalysisNode for Decl {
    open spec fn env_after(self, env: Env) -> Env {
        decl_env(self, env)
    }

    open spec fn raised(self, env: Env) -> Seq<Diagnostic> {
        decl_diags(self, env)
    }

    open spec fn annotated(self, env: Env, after: Decl) -> bool {
        decl_annotated(self, env, after)
    }

    fn analyze_type(&mut self, analyzer: &mut TypeAnalyzer) {
        analyze_decl(self, analyzer);
    }
}

impl TypeAnalysisNode for ClassDecl {
    open spec fn env_after(self, env: Env) -> Env {
        env.with_class(self)
    }

    open spec fn raised(self, env: Env) -> Seq<Diagnostic> {
        members_diags(self.member_f@, self.member_f@.len() as int, env.classes)
    }

    open spec fn annotated(self, env: Env, after: ClassDecl) -> bool {
        after == self
    }

    fn analyze_type(&mut self, analyzer: &mut TypeAnalyzer) {
        analyzer.add_class(&*self);
    }
}

impl TypeAnalysisNode for FnDecl {
    open spec fn env_after(self, env: Env) -> Env {
        env
    }

    open spec fn raised(self, env: Env) -> Seq<Diagnostic> {
        fn_diags(self, env)
    }

    open spec fn annotated(self, env: Env, after: FnDecl) -> bool {
        fn_annotated(self, env, after)
    }

    fn analyze_type(&mut self, analyzer: &mut TypeAnalyzer) {
        analyze_fn(self, analyzer);
    }
}

impl TypeAnalysisNode for VarDecl {
    open spec fn env_after(self, env: Env) -> Env {
        var_decl_env(self, env)
    }

    open spec fn raised(self, env: Env) -> Seq<Diagnostic> {
        var_decl_diags(self, env)
    }

    open spec fn annotated(self, env: Env, after: VarDecl) -> bool {
        var_decl_annotated(self, env, after)
    }

    fn analyze_type(&mut self, analyzer: &mut TypeAnalyzer) {
        analyze_var_decl(self, analyzer);
    }
}

impl TypeAnalysisNode for Exp {
    open spec fn env_after(self, env: Env) -> Env {
        env
    }

    open spec fn raised(self, env: Env) -> Seq<Diagnostic> {
        exp_diags(self, env)
    }

    open spec fn annotated(self, env: Env, after: Exp) -> bool {
        exp_annotated(self, env, after)
    }

    fn analyze_type(&mut self, analyzer: &mut TypeAnalyzer) {
        analyze_exp(self, analyzer);
    }
}

impl TypeAnalysisStmtNode for Stmt {
    open spec fn env_after(self, env: Env) -> Env {
        stmt_env(self, env)
    }

    open spec fn raised(self, env: Env, ret: TypeKind) -> Seq<Diagnostic> {
        stmt_diags(self, env, ret)
    }

    open spec fn annotated(self, env: Env, after: Stmt) -> bool {
        stmt_annotated(self, env, after)
    }

    fn analyze_type(&mut self, analyzer: &mut TypeAnalyzer, return_type: &TypeKind) {
        analyze_stmt(self, analyzer, return_type);
    }
}

impl TypeAnalysisStmtNode for BlockStmt {
    open spec fn env_after(self, env: Env) -> Env {
        env
    }

    open spec fn raised(self, env: Env, ret: TypeKind) -> Seq<Diagnostic> {
        block_diags(self, env, ret)
    }

    open spec fn annotated(self, env: Env, after: BlockStmt) -> bool {
        block_annotated(self, env, after)
    }

    fn analyze_type(&mut self, analyzer: &mut TypeAnalyzer, return_type: &TypeKind) {
        analyze_block(self, analyzer, return_type);
    }
}

impl TypeAnalysisStmtNode for LineStmt {
    open spec fn env_after(self, env: Env) -> Env {
        env
    }

    open spec fn raised(self, env: Env, ret: TypeKind) -> Seq<Diagnostic> {
        line_diags(self, env, ret)
    }

    open spec fn annotated(self, env: Env, after: LineStmt) -> bool {
        line_annotated(self, env, after)
    }

    fn analyze_type(&mut self, analyzer: &mut TypeAnalyzer, return_type: &TypeKind) {
        analyze_line(self, analyzer, return_type);
    }
}

/// A type as a result: `Ok` of it, or `Err` when there is none.
pub fn as_result(t: Option<Type>) -> (r: Result<Type, ()>)
    ensures
        match t {
            Some(x) => r == Ok::<Type, ()>(x),
            None => r is Err,
        },
{
    match t {
        Some(x) => Ok(x),
        None => Err(()),
    }
}

impl EvaluateExpType for UnaryExp {
    open spec fn resolved(self, env: Env) -> Option<Type> {
        unary_result(self, env)
    }

    open spec fn raised(self, env: Env) -> Seq<Diagnostic> {
        unary_diags(self, env)
    }

    open spec fn annotated(self, env: Env, after: UnaryExp) -> bool {
        unary_annotated(self, env, after)
    }

    fn eval_type(&mut self, analyzer: &mut TypeAnalyzer) -> (r: Result<Type, ()>) {
        as_result(eval_unary(self, analyzer))
    }
}

impl EvaluateExpType for BinaryExp {
    open spec fn resolved(self, env: Env) -> Option<Type> {
        binary_result(self, env)
    }

    open spec fn raised(self, env: Env) -> Seq<Diagnostic> {
        binary_diags(self, env)
    }

    open spec fn annotated(self, env: Env, after: BinaryExp) -> bool {
        binary_annotated(self, env, after)
    }

    fn eval_type(&mut self, analyzer: &mut TypeAnalyzer) -> (r: Result<Type, ()>) {
        as_result(eval_binary(self, analyzer))
    }
}

impl EvaluateExpType for CallExp {
    open spec fn resolved(self, env: Env) -> Option<Type> {
        call_result(self, env)
    }

    open spec fn raised(self, env: Env) -> Seq<Diagnostic> {
        call_diags(self, env)
    }

    open spec fn annotated(self, env: Env, after: CallExp) -> bool {
        call_annotated(self, env, after)
    }

    fn eval_type(&mut self, analyzer: &mut TypeAnalyzer) -> (r: Result<Type, ()>) {
        as_result(eval_call(self, analyzer))
    }
}

impl EvaluateExpType for Loc {
    open spec fn resolved(self, env: Env) -> Option<Type> {
        loc_result(self, env)
    }

    open spec fn raised(self, env: Env) -> Seq<Diagnostic> {
        loc_diags(self, env)
    }

    open spec fn annotated(self, env: Env, after: Loc) -> bool {
        loc_annotated(self, env, after)
    }

    fn eval_type(&mut self, analyzer: &mut TypeAnalyzer) -> (r: Result<Type, ()>) {
        as_result(analyze_loc(self, analyzer))
    }
}

} // verus!
