//! Analysis of declarations and statements: how each changes the symbol
//! environment, which diagnostics it raises, and the analysis itself.

use vstd::prelude::*;
use vstd::string::*;
use crate::analysis::env::{
    Diagnostic,
    Env,
    ErrorType,
    TypeAnalyzer,
};
use crate::analysis::exp::{
    analyze_exp,
    analyze_loc,
    call_annotated,
    call_diags,
    diag_if,
    eval_call,
    exp_annotated,
    exp_diags,
    exp_slot,
    fn_or_class_name,
    is_void,
    loc_annotated,
    loc_diags,
    loc_is_fn_or_class,
    loc_result,
    names_fn_or_class,
    slot_is_void,
};
use crate::parser::ast::{
    BlockStmt,
    Exp,
    ExpKind,
    LineStmt,
    LineStmtKind,
    Loc,
    PrimType,
    Stmt,
    Type,
    TypeKind,
    VarDecl,
};

verus! {

/// The diagnostics of declaring a variable or formal `name` of type `t`
/// in the innermost scope: `BadType` when the type is `void`, and then
/// `MultipleDecl` when that scope binds the name already. The two are
/// tested apart: a `void` declaration of a bound name raises both.
pub open spec fn declare_diags(env: Env, name: Seq<char>, t: Type, span: crate::span::Span) -> Seq<
    Diagnostic,
> {
    diag_if(t.kind.spec_is_prim(PrimType::Void), ErrorType::BadType, span) + diag_if(
        env.declared_here(name),
        ErrorType::MultipleDecl,
        span,
    )
}

/// The environment after declaring a variable or formal `name` of type `t`
/// in the innermost scope: the name is bound, unless the declaration
/// raised a diagnostic.
pub open spec fn declare_env(env: Env, name: Seq<char>, t: Type) -> Env {
    if t.kind.spec_is_prim(PrimType::Void) || env.declared_here(name) {
        env
    } else {
        env.with_var(name, t)
    }
}

/// The diagnostics that a variable declaration raises apart from those of
/// its initial value.
///
/// With an initial value: `BadAssignOne` at the name when the variable is
/// of a class type, and then `BadAssignTwo` at the value when the value is
/// of a known type that does not agree with the declared one; the two are
/// tested apart. Then, for a variable of a class type, `UndefinedDecl` at
/// the class when it is not known; for any other variable, what declaring
/// it raises.
pub open spec fn var_decl_own_diags(v: VarDecl, env: Env) -> Seq<Diagnostic> {
    let init = match v.init_val {
        Some(e) => diag_if(*v.var_type.kind is Class, ErrorType::BadAssignOne, v.id.span) + diag_if(
            exp_slot(*e, env) matches Some(t) && !t.spec_agrees(*v.var_type),
            ErrorType::BadAssignTwo,
            e.span,
        ),
        None => Seq::empty(),
    };
    let decl = match *v.var_type.kind {
        TypeKind::Class(c) => diag_if(
            !env.classes.contains_key(c.name@),
            ErrorType::UndefinedDecl,
            c.span,
        ),
        TypeKind::Prim(_) => declare_diags(env, v.id.name@, *v.var_type, v.id.span),
    };
    init + decl
}

/// The diagnostics of a variable declaration: those of its initial value,
/// then its own.
pub open spec fn var_decl_diags(v: VarDecl, env: Env) -> Seq<Diagnostic> {
    (match v.init_val {
        Some(e) => exp_diags(*e, env),
        None => Seq::empty(),
    }) + var_decl_own_diags(v, env)
}

/// The environment after a variable declaration. A variable of a class
/// type is bound as one variable for each flattened field of its class,
/// named `variable--field`, and not under its own name.
pub open spec fn var_decl_env(v: VarDecl, env: Env) -> Env {
    match *v.var_type.kind {
        TypeKind::Class(c) => env.with_instance(v.id.name@, c.name@),
        TypeKind::Prim(_) => declare_env(env, v.id.name@, *v.var_type),
    }
}

/// Whether `r` is the variable declaration `o` after analysis.
pub open spec fn var_decl_annotated(o: VarDecl, env: Env, r: VarDecl) -> bool {
    &&& r.var_type == o.var_type
    &&& r.id == o.id
    &&& match o.init_val {
        Some(e) => r.init_val matches Some(e2) && exp_annotated(*e, env, *e2),
        None => r.init_val is None,
    }
}

/// The diagnostics that an assignment raises apart from those of its two
/// sides: `BadAssignOne` at each side that names a function or a class;
/// when both sides are of known types, `NonLval` at each side of a
/// write-once type; and when there was none of these, `BadAssignTwo` at
/// the statement if the two types do not agree.
pub open spec fn assign_own_diags(span: crate::span::Span, dest: Loc, src: Exp, env: Env) -> Seq<
    Diagnostic,
> {
    let named = diag_if(env.is_fn_or_class(dest.spec_name()), ErrorType::BadAssignOne, dest.span)
        + diag_if(names_fn_or_class(src, env), ErrorType::BadAssignOne, src.span);
    match (loc_result(dest, env), exp_slot(src, env)) {
        (Some(d), Some(t)) => {
            let bad = named + diag_if(d.perfect, ErrorType::NonLval, dest.span) + diag_if(
                t.perfect,
                ErrorType::NonLval,
                src.span,
            );
            if bad.len() > 0 {
                bad
            } else {
                diag_if(!d.spec_agrees(t), ErrorType::BadAssignTwo, span)
            }
        },
        _ => named,
    }
}

/// The diagnostics that an output statement raises apart from those of its
/// operand: `GiveFn` and `GiveClass` when the operand is the bare name of
/// a function or of a class, `GiveVoid` when it is a call of type `void`.
pub open spec fn give_own_diags(output: Exp, env: Env) -> Seq<Diagnostic> {
    match *output.kind {
        ExpKind::Loc(l) => diag_if(
            env.functions.contains_key(l.spec_name()),
            ErrorType::GiveFn,
            output.span,
        ) + diag_if(env.classes.contains_key(l.spec_name()), ErrorType::GiveClass, output.span),
        ExpKind::CallExp(_) => diag_if(
            is_void(exp_slot(output, env)),
            ErrorType::GiveVoid,
            output.span,
        ),
        _ => Seq::empty(),
    }
}

/// The diagnostic that `return e` raises apart from those of `e`, in a
/// function whose return type is `ret`: `ReturnVoid` when the function is
/// `void` and `e` is not, or else `ReturnBad` when the type of `e` is not
/// `ret`; nothing when the type of `e` is not known.
pub open spec fn return_own_diags(e: Exp, env: Env, ret: TypeKind) -> Seq<Diagnostic> {
    match exp_slot(e, env) {
        Some(t) => if !t.kind.spec_is_prim(PrimType::Void) && ret.spec_is_prim(PrimType::Void) {
            seq![Diagnostic { kind: ErrorType::ReturnVoid, span: e.span }]
        } else {
            diag_if(!t.kind.spec_same(ret), ErrorType::ReturnBad, e.span)
        },
        None => Seq::empty(),
    }
}

/// The diagnostics of a line statement, in a function whose return type is
/// `ret`.
pub open spec fn line_diags(s: LineStmt, env: Env, ret: TypeKind) -> Seq<Diagnostic> {
    match *s.kind {
        LineStmtKind::Assign { dest, src } => loc_diags(*dest, env) + exp_diags(*src, env)
            + assign_own_diags(s.span, *dest, *src, env),
        LineStmtKind::PostDec { loc } => loc_diags(*loc, env) + diag_if(
            loc_result(*loc, env) matches Some(t) && !t.kind.spec_is_prim(PrimType::Int),
            ErrorType::WrongOpMath,
            loc.span,
        ),
        LineStmtKind::PostInc { loc } => loc_diags(*loc, env) + diag_if(
            loc_result(*loc, env) matches Some(t) && !t.kind.spec_is_prim(PrimType::Int),
            ErrorType::WrongOpMath,
            loc.span,
        ),
        LineStmtKind::Give { output } => exp_diags(*output, env) + give_own_diags(*output, env),
        LineStmtKind::Take { recipient } => loc_diags(*recipient, env) + diag_if(
            env.functions.contains_key(recipient.spec_name()),
            ErrorType::ReadFn,
            recipient.span,
        ) + diag_if(
            env.classes.contains_key(recipient.spec_name()),
            ErrorType::ReadClass,
            recipient.span,
        ),
        LineStmtKind::Return { result } => match result {
            Some(e) => exp_diags(*e, env) + return_own_diags(*e, env, ret),
            None => diag_if(!ret.spec_is_prim(PrimType::Void), ErrorType::ReturnMissing, s.span),
        },
        LineStmtKind::Exit => Seq::empty(),
        LineStmtKind::Call(c) => call_diags(*c, env),
    }
}

/// Whether `r` is the line statement `o` after analysis.
pub open spec fn line_annotated(o: LineStmt, env: Env, r: LineStmt) -> bool {
    &&& r.span == o.span
    &&& match *o.kind {
        LineStmtKind::Assign { dest, src } => *r.kind matches LineStmtKind::Assign {
            dest: d2,
            src: s2,
        } && loc_annotated(*dest, env, *d2) && exp_annotated(*src, env, *s2),
        LineStmtKind::PostDec { loc } => *r.kind matches LineStmtKind::PostDec { loc: l2 }
            && loc_annotated(*loc, env, *l2),
        LineStmtKind::PostInc { loc } => *r.kind matches LineStmtKind::PostInc { loc: l2 }
            && loc_annotated(*loc, env, *l2),
        LineStmtKind::Give { output } => *r.kind matches LineStmtKind::Give { output: o2 }
            && exp_annotated(*output, env, *o2),
        LineStmtKind::Take { recipient } => *r.kind matches LineStmtKind::Take { recipient: l2 }
            && loc_annotated(*recipient, env, *l2),
        LineStmtKind::Return { result } => match result {
            Some(e) => *r.kind matches LineStmtKind::Return { result: Some(e2) } && exp_annotated(
                *e,
                env,
                *e2,
            ),
            None => *r.kind == *o.kind,
        },
        LineStmtKind::Exit => *r.kind == *o.kind,
        LineStmtKind::Call(c) => *r.kind matches LineStmtKind::Call(c2) && call_annotated(
            *c,
            env,
            *c2,
        ),
    }
}

/// The diagnostic of a condition apart from those of the expression:
/// `CondNonBool` when it is of a known type other than `bool`.
pub open spec fn cond_own_diags(cond: Exp, env: Env) -> Seq<Diagnostic> {
    diag_if(
        exp_slot(cond, env) matches Some(t) && !t.kind.spec_is_prim(PrimType::Bool),
        ErrorType::CondNonBool,
        cond.span,
    )
}

/// The environment after a statement: a declaration binds its variable,
/// and no other statement leaves a trace.
pub open spec fn stmt_env(s: Stmt, env: Env) -> Env {
    match s {
        Stmt::VarDecl(v) => var_decl_env(*v, env),
        _ => env,
    }
}

/// The environment after the statements `ss[..n]`.
pub open spec fn stmts_env(ss: Seq<Box<Stmt>>, env: Env, n: int) -> Env
    decreases n,
{
    if n <= 0 || n > ss.len() {
        env
    } else {
        stmt_env(*ss[n - 1], stmts_env(ss, env, n - 1))
    }
}

/// The diagnostics of a statement, in a function whose return type is
/// `ret`.
pub open spec fn stmt_diags(s: Stmt, env: Env, ret: TypeKind) -> Seq<Diagnostic>
    decreases s, 1nat,
{
    match s {
        Stmt::Block(b) => block_diags(*b, env, ret),
        Stmt::Line(l) => line_diags(*l, env, ret),
        Stmt::VarDecl(v) => var_decl_diags(*v, env),
    }
}

/// The diagnostics of the statements `ss[..n]`, each in the environment
/// that the ones before it leave.
pub open spec fn stmts_diags(ss: Seq<Box<Stmt>>, env: Env, ret: TypeKind, n: int) -> Seq<Diagnostic>
    decreases ss, n,
{
    if n <= 0 || n > ss.len() {
        Seq::empty()
    } else {
        stmts_diags(ss, env, ret, n - 1) + stmt_diags(*ss[n - 1], stmts_env(ss, env, n - 1), ret)
    }
}

/// The diagnostics of a body: those of its statements, in a scope of its
/// own.
pub open spec fn body_diags(ss: Seq<Box<Stmt>>, env: Env, ret: TypeKind) -> Seq<Diagnostic>
    decreases ss, ss.len() + 1,
{
    stmts_diags(ss, env.enter(), ret, ss.len() as int)
}

/// The diagnostics of a block statement: those of its condition, then
/// those of each of its bodies.
pub open spec fn block_diags(b: BlockStmt, env: Env, ret: TypeKind) -> Seq<Diagnostic>
    decreases b, 0nat,
{
    match b {
        BlockStmt::While { cond, body } => exp_diags(*cond, env) + cond_own_diags(*cond, env)
            + body_diags(body@, env, ret),
        BlockStmt::If { cond, body } => exp_diags(*cond, env) + cond_own_diags(*cond, env)
            + body_diags(body@, env, ret),
        BlockStmt::IfElse { cond, true_branch, false_branch } => exp_diags(*cond, env)
            + cond_own_diags(*cond, env) + body_diags(true_branch@, env, ret) + body_diags(
            false_branch@,
            env,
            ret,
        ),
    }
}

/// Whether `r` is the statement `o` after analysis.
pub open spec fn stmt_annotated(o: Stmt, env: Env, r: Stmt) -> bool
    decreases o, 1nat,
{
    match o {
        Stmt::Block(b) => r matches Stmt::Block(b2) && block_annotated(*b, env, *b2),
        Stmt::Line(l) => r matches Stmt::Line(l2) && line_annotated(*l, env, *l2),
        Stmt::VarDecl(v) => r matches Stmt::VarDecl(v2) && var_decl_annotated(*v, env, *v2),
    }
}

/// Whether `rs` are the statements `os` after analysis, each analyzed in
/// the environment that the ones before it leave.
pub open spec fn stmts_annotated(os: Seq<Box<Stmt>>, env: Env, rs: Seq<Box<Stmt>>) -> bool
    decreases os, 0nat,
{
    &&& rs.len() == os.len()
    &&& forall|i: int|
        0 <= i < os.len() ==> stmt_annotated(*#[trigger] os[i], stmts_env(os, env, i), *rs[i])
}

/// Whether `r` is the block statement `o` after analysis.
pub open spec fn block_annotated(o: BlockStmt, env: Env, r: BlockStmt) -> bool
    decreases o, 0nat,
{
    match o {
        BlockStmt::While { cond, body } => r matches BlockStmt::While { cond: c2, body: b2 }
            && exp_annotated(*cond, env, *c2) && stmts_annotated(body@, env.enter(), b2@),
        BlockStmt::If { cond, body } => r matches BlockStmt::If { cond: c2, body: b2 }
            && exp_annotated(*cond, env, *c2) && stmts_annotated(body@, env.enter(), b2@),
        BlockStmt::IfElse { cond, true_branch, false_branch } => r matches BlockStmt::IfElse {
            cond: c2,
            true_branch: t2,
            false_branch: f2,
        } && exp_annotated(*cond, env, *c2) && stmts_annotated(true_branch@, env.enter(), t2@)
            && stmts_annotated(false_branch@, env.enter(), f2@),
    }
}

/// Whether two environments differ at most in their innermost scope.
pub open spec fn same_but_innermost(a: Env, b: Env) -> bool {
    &&& a.functions == b.functions
    &&& a.classes == b.classes
    &&& a.scopes.len() == b.scopes.len()
    &&& a.scopes.drop_last() == b.scopes.drop_last()
}

/// Binding fields touches the innermost scope only.
pub proof fn lemma_bind_fields_frame(
    scopes: Seq<Map<Seq<char>, Type>>,
    owner: Seq<char>,
    fields: Seq<crate::analysis::env::FieldSig>,
    i: int,
)
    ensures
        crate::analysis::env::bind_fields(scopes, owner, fields, i).len() == scopes.len(),
        crate::analysis::env::bind_fields(scopes, owner, fields, i).drop_last()
            == scopes.drop_last(),
    decreases fields.len() - i,
{
    if 0 <= i < fields.len() {
        let next = crate::analysis::env::bind(
            scopes,
            crate::analysis::env::dotted(owner, fields[i].id),
            fields[i].field_type,
        );
        lemma_bind_fields_frame(next, owner, fields, i + 1);
        assert(next.drop_last() =~= scopes.drop_last());
    }
}

/// A statement touches the innermost scope only.
pub proof fn lemma_stmt_env_frame(s: Stmt, env: Env)
    ensures
        same_but_innermost(stmt_env(s, env), env),
{
    match s {
        Stmt::VarDecl(v) => {
            match *v.var_type.kind {
                TypeKind::Class(c) => {
                    if env.classes.contains_key(c.name@) {
                        lemma_bind_fields_frame(env.scopes, v.id.name@, env.classes[c.name@], 0);
                    }
                },
                TypeKind::Prim(_) => {
                    assert(declare_env(env, v.id.name@, *v.var_type).scopes.drop_last()
                        =~= env.scopes.drop_last());
                },
            }
        },
        _ => {},
    }
}

/// Statements touch the innermost scope only.
pub proof fn lemma_stmts_env_frame(ss: Seq<Box<Stmt>>, env: Env, n: int)
    ensures
        same_but_innermost(stmts_env(ss, env, n), env),
    decreases n,
{
    if 0 < n <= ss.len() {
        lemma_stmts_env_frame(ss, env, n - 1);
        lemma_stmt_env_frame(*ss[n - 1], stmts_env(ss, env, n - 1));
    }
}

/// What is left when a scope is opened, statements run in it, and it is
/// closed, is what was there before.
pub proof fn lemma_enter_run_leave(ss: Seq<Box<Stmt>>, env: Env, n: int)
    requires
        env.scopes.len() >= 1,
    ensures
        stmts_env(ss, env.enter(), n).leave() == env,
{
    lemma_stmts_env_frame(ss, env.enter(), n);
    assert(env.enter().scopes.drop_last() =~= env.scopes);
}

/// Declares a variable or formal in the innermost scope: reports `BadType`
/// for a `void` one and `MultipleDecl` for one that the scope binds
/// already, both if both hold, and binds it if neither holds.
pub fn declare(an: &mut TypeAnalyzer, name: &String, t: &Type, span: crate::span::Span)
    requires
        old(an).wf(),
    ensures
        final(an).wf(),
        final(an).env() == declare_env(old(an).env(), name@, *t),
        final(an).diags() == old(an).diags() + declare_diags(old(an).env(), name@, *t, span),
{
    let void = t.kind.is_prim(PrimType::Void);
    let bound = an.declared_here(name);
    if void {
        an.report_error(ErrorType::BadType, span);
    }
    if bound {
        an.report_error(ErrorType::MultipleDecl, span);
    }
    if !void && !bound {
        an.add_var(name.clone(), t.copy());
    }
    proof {
        assert(final(an).diags() =~= old(an).diags() + declare_diags(
            old(an).env(),
            name@,
            *t,
            span,
        ));
    }
}

/// Analyzes a variable declaration: its initial value if it has one, then
/// the declaration itself.
pub fn analyze_var_decl(v: &mut VarDecl, an: &mut TypeAnalyzer)
    requires
        old(an).wf(),
    ensures
        final(an).wf(),
        final(an).env() == var_decl_env(*old(v), old(an).env()),
        final(an).diags() == old(an).diags() + var_decl_diags(*old(v), old(an).env()),
        var_decl_annotated(*old(v), old(an).env(), *final(v)),
{
    let ghost env = an.env();
    let ghost d0 = an.diags();
    let has_init = v.init_val.is_some();
    if has_init {
        match &mut v.init_val {
            Some(e) => {
                analyze_exp(e, an);
            },
            None => {},
        }
    }
    let ghost d1 = an.diags();
    proof {
        assert(d1 =~= d0 + (match old(v).init_val {
            Some(e) => exp_diags(*e, env),
            None => Seq::empty(),
        }));
    }
    if has_init {
        match &*v.var_type.kind {
            TypeKind::Class(_) => {
                an.report_error(ErrorType::BadAssignOne, v.id.span);
            },
            TypeKind::Prim(_) => {},
        }
        match &v.init_val {
            Some(e) => {
                match &e.expr_type {
                    Some(t) => {
                        if !t.agrees(&v.var_type) {
                            an.report_error(ErrorType::BadAssignTwo, e.span);
                        }
                    },
                    None => {},
                }
            },
            None => {},
        }
    }
    let ghost d2 = an.diags();
    match &*v.var_type.kind {
        TypeKind::Class(c) => {
            if !an.has_class(&c.name) {
                an.report_error(ErrorType::UndefinedDecl, c.span);
            }
            an.add_class_inst(v.id.name.clone(), c.name.clone());
        },
        TypeKind::Prim(_) => {
            declare(an, &v.id.name, &v.var_type, v.id.span);
        },
    }
    proof {
        assert(an.diags() =~= d1 + var_decl_own_diags(*old(v), env));
        assert(an.diags() =~= d0 + var_decl_diags(*old(v), env));
    }
}

/// Analyzes an assignment whose statement spans `span`.
pub fn analyze_assign(dest: &mut Loc, src: &mut Exp, span: crate::span::Span, an: &mut TypeAnalyzer)
    requires
        old(an).wf(),
    ensures
        final(an).wf(),
        final(an).env() == old(an).env(),
        final(an).diags() == old(an).diags() + loc_diags(*old(dest), old(an).env()) + exp_diags(
            *old(src),
            old(an).env(),
        ) + assign_own_diags(span, *old(dest), *old(src), old(an).env()),
        loc_annotated(*old(dest), old(an).env(), *final(dest)),
        exp_annotated(*old(src), old(an).env(), *final(src)),
{
    let ghost env = an.env();
    let dest_named = loc_is_fn_or_class(dest, an);
    let src_named = fn_or_class_name(src, an);
    let dest_type = analyze_loc(dest, an);
    analyze_exp(src, an);
    let ghost d2 = an.diags();
    if dest_named {
        an.report_error(ErrorType::BadAssignOne, dest.span);
    }
    if src_named {
        an.report_error(ErrorType::BadAssignOne, src.span);
    }
    match dest_type {
        Some(d) => {
            match &src.expr_type {
                Some(t) => {
                    if d.perfect {
                        an.report_error(ErrorType::NonLval, dest.span);
                    }
                    if t.perfect {
                        an.report_error(ErrorType::NonLval, src.span);
                    }
                    if !(dest_named || src_named || d.perfect || t.perfect) {
                        if !d.agrees(t) {
                            an.report_error(ErrorType::BadAssignTwo, span);
                        }
                    }
                },
                None => {},
            }
        },
        None => {},
    }
    proof {
        assert(an.diags() =~= d2 + assign_own_diags(span, *old(dest), *old(src), env));
    }
}

/// Analyzes the operand of `--` or `++`.
pub fn analyze_step(loc: &mut Loc, an: &mut TypeAnalyzer)
    requires
        old(an).wf(),
    ensures
        final(an).wf(),
        final(an).env() == old(an).env(),
        final(an).diags() == old(an).diags() + loc_diags(*old(loc), old(an).env()) + diag_if(
            loc_result(*old(loc), old(an).env()) matches Some(t) && !t.kind.spec_is_prim(
                PrimType::Int,
            ),
            ErrorType::WrongOpMath,
            old(loc).span,
        ),
        loc_annotated(*old(loc), old(an).env(), *final(loc)),
{
    let ghost d0 = an.diags();
    let t = analyze_loc(loc, an);
    let ghost d1 = an.diags();
    match t {
        Some(t) => {
            if !t.kind.is_prim(PrimType::Int) {
                an.report_error(ErrorType::WrongOpMath, loc.span);
            }
        },
        None => {},
    }
    proof {
        assert(an.diags() =~= d1 + diag_if(
            loc_result(*old(loc), old(an).env()) matches Some(t) && !t.kind.spec_is_prim(
                PrimType::Int,
            ),
            ErrorType::WrongOpMath,
            old(loc).span,
        ));
    }
}

/// Analyzes the operand of an output statement.
pub fn analyze_give(output: &mut Exp, an: &mut TypeAnalyzer)
    requires
        old(an).wf(),
    ensures
        final(an).wf(),
        final(an).env() == old(an).env(),
        final(an).diags() == old(an).diags() + exp_diags(*old(output), old(an).env())
            + give_own_diags(*old(output), old(an).env()),
        exp_annotated(*old(output), old(an).env(), *final(output)),
{
    let ghost env = an.env();
    analyze_exp(output, an);
    let ghost d1 = an.diags();
    let (is_fn, is_class, is_call) = match &*output.kind {
        ExpKind::Loc(l) => {
            let n = l.name();
            (an.has_fn(&n), an.has_class(&n), false)
        },
        ExpKind::CallExp(_) => (false, false, true),
        _ => (false, false, false),
    };
    if is_fn {
        an.report_error(ErrorType::GiveFn, output.span);
    }
    if is_class {
        an.report_error(ErrorType::GiveClass, output.span);
    }
    if is_call && slot_is_void(&output.expr_type) {
        an.report_error(ErrorType::GiveVoid, output.span);
    }
    proof {
        assert(an.diags() =~= d1 + give_own_diags(*old(output), env));
    }
}

/// Analyzes the target of an input statement.
pub fn analyze_take(recipient: &mut Loc, an: &mut TypeAnalyzer)
    requires
        old(an).wf(),
    ensures
        final(an).wf(),
        final(an).env() == old(an).env(),
        final(an).diags() == old(an).diags() + loc_diags(*old(recipient), old(an).env()) + diag_if(
            old(an).env().functions.contains_key(old(recipient).spec_name()),
            ErrorType::ReadFn,
            old(recipient).span,
        ) + diag_if(
            old(an).env().classes.contains_key(old(recipient).spec_name()),
            ErrorType::ReadClass,
            old(recipient).span,
        ),
        loc_annotated(*old(recipient), old(an).env(), *final(recipient)),
{
    let n = recipient.name();
    let is_fn = an.has_fn(&n);
    let is_class = an.has_class(&n);
    let _ = analyze_loc(recipient, an);
    let ghost d1 = an.diags();
    if is_fn {
        an.report_error(ErrorType::ReadFn, recipient.span);
    }
    let ghost d2 = an.diags();
    if is_class {
        an.report_error(ErrorType::ReadClass, recipient.span);
    }
    proof {
        assert(d2 =~= d1 + diag_if(is_fn, ErrorType::ReadFn, old(recipient).span));
        assert(an.diags() =~= d2 + diag_if(is_class, ErrorType::ReadClass, old(recipient).span));
    }
}

/// Analyzes the value of a `return`, in a function whose return type is
/// `ret`.
pub fn analyze_return(e: &mut Exp, an: &mut TypeAnalyzer, ret: &TypeKind)
    requires
        old(an).wf(),
    ensures
        final(an).wf(),
        final(an).env() == old(an).env(),
        final(an).diags() == old(an).diags() + exp_diags(*old(e), old(an).env())
            + return_own_diags(*old(e), old(an).env(), *ret),
        exp_annotated(*old(e), old(an).env(), *final(e)),
{
    let ghost env = an.env();
    analyze_exp(e, an);
    let ghost d1 = an.diags();
    match &e.expr_type {
        Some(t) => {
            if !t.kind.is_prim(PrimType::Void) && ret.is_prim(PrimType::Void) {
                an.report_error(ErrorType::ReturnVoid, e.span);
            } else if !t.kind.same(ret) {
                an.report_error(ErrorType::ReturnBad, e.span);
            }
        },
        None => {},
    }
    proof {
        assert(an.diags() =~= d1 + return_own_diags(*old(e), env, *ret));
    }
}

/// Analyzes a line statement, in a function whose return type is `ret`.
pub fn analyze_line(s: &mut LineStmt, an: &mut TypeAnalyzer, ret: &TypeKind)
    requires
        old(an).wf(),
    ensures
        final(an).wf(),
        final(an).env() == old(an).env(),
        final(an).diags() == old(an).diags() + line_diags(*old(s), old(an).env(), *ret),
        line_annotated(*old(s), old(an).env(), *final(s)),
{
    let ghost env = an.env();
    let ghost d0 = an.diags();
    let plain = match &*s.kind {
        LineStmtKind::Exit => Some(false),
        LineStmtKind::Return { result } => if result.is_none() {
            Some(true)
        } else {
            None
        },
        _ => None,
    };
    match plain {
        Some(bare_return) => {
            if bare_return && !ret.is_prim(PrimType::Void) {
                an.report_error(ErrorType::ReturnMissing, s.span);
            }
        },
        None => {
            let span = s.span;
            match &mut *s.kind {
                LineStmtKind::Assign { dest, src } => {
                    analyze_assign(dest, src, span, an);
                },
                LineStmtKind::PostDec { loc } => {
                    analyze_step(loc, an);
                },
                LineStmtKind::PostInc { loc } => {
                    analyze_step(loc, an);
                },
                LineStmtKind::Give { output } => {
                    analyze_give(output, an);
                },
                LineStmtKind::Take { recipient } => {
                    analyze_take(recipient, an);
                },
                LineStmtKind::Return { result: Some(e) } => {
                    analyze_return(e, an, ret);
                },
                LineStmtKind::Call(c) => {
                    let _ = eval_call(c, an);
                },
                _ => {},
            }
        },
    }
    proof {
        assert(an.diags() =~= d0 + line_diags(*old(s), env, *ret));
    }
}

/// Analyzes a condition.
pub fn analyze_cond(cond: &mut Exp, an: &mut TypeAnalyzer)
    requires
        old(an).wf(),
    ensures
        final(an).wf(),
        final(an).env() == old(an).env(),
        final(an).diags() == old(an).diags() + exp_diags(*old(cond), old(an).env())
            + cond_own_diags(*old(cond), old(an).env()),
        exp_annotated(*old(cond), old(an).env(), *final(cond)),
{
    let ghost env = an.env();
    analyze_exp(cond, an);
    let ghost d1 = an.diags();
    match &cond.expr_type {
        Some(t) => {
            if !t.kind.is_prim(PrimType::Bool) {
                an.report_error(ErrorType::CondNonBool, cond.span);
            }
        },
        None => {},
    }
    proof {
        assert(an.diags() =~= d1 + cond_own_diags(*old(cond), env));
    }
}

/// Analyzes statements one after the other, in the innermost scope.
pub fn analyze_stmts(body: &mut Vec<Box<Stmt>>, an: &mut TypeAnalyzer, ret: &TypeKind)
    requires
        old(an).wf(),
    ensures
        final(an).wf(),
        final(an).env() == stmts_env(old(body)@, old(an).env(), old(body)@.len() as int),
        final(an).diags() == old(an).diags() + stmts_diags(
            old(body)@,
            old(an).env(),
            *ret,
            old(body)@.len() as int,
        ),
        stmts_annotated(old(body)@, old(an).env(), final(body)@),
    decreases *old(body), 2nat,
{
    let ghost env = an.env();
    let ghost d0 = an.diags();
    let ghost orig = *body;
    let n = body.len();
    let mut i: usize = 0;
    proof {
        assert(d0 =~= d0 + stmts_diags(orig@, env, *ret, 0));
    }
    while i < n
        invariant
            i <= n,
            n == body@.len(),
            n == orig@.len(),
            orig == *old(body),
            an.wf(),
            an.env() == stmts_env(orig@, env, i as int),
            an.diags() == d0 + stmts_diags(orig@, env, *ret, i as int),
            forall|j: int|
                0 <= j < i ==> stmt_annotated(*#[trigger] orig@[j], stmts_env(orig@, env, j), *body@[j]),
            forall|j: int| i <= j < n ==> body@[j] == orig@[j],
        decreases n - i,
    {
        proof {
            assert(body@[i as int] == orig@[i as int]);
            assert(decreases_to!(orig => orig@));
            assert(decreases_to!(orig@ => orig@[i as int]));
        }
        let ghost da = an.diags();
        analyze_stmt(&mut body[i], an, ret);
        proof {
            assert(an.diags() =~= d0 + stmts_diags(orig@, env, *ret, i + 1));
        }
        i += 1;
    }
}

/// Analyzes a body: its statements, in a scope of their own.
pub fn analyze_body(body: &mut Vec<Box<Stmt>>, an: &mut TypeAnalyzer, ret: &TypeKind)
    requires
        old(an).wf(),
    ensures
        final(an).wf(),
        final(an).env() == old(an).env(),
        final(an).diags() == old(an).diags() + body_diags(old(body)@, old(an).env(), *ret),
        stmts_annotated(old(body)@, old(an).env().enter(), final(body)@),
    decreases *old(body), 3nat,
{
    an.enter_scope();
    analyze_stmts(body, an, ret);
    an.remove_scope();
    proof {
        old(an).lemma_wf();
        lemma_enter_run_leave(old(body)@, old(an).env(), old(body)@.len() as int);
        lemma_stmts_env_frame(old(body)@, old(an).env().enter(), old(body)@.len() as int);
    }
}

/// Analyzes a block statement, in a function whose return type is `ret`.
pub fn analyze_block(b: &mut BlockStmt, an: &mut TypeAnalyzer, ret: &TypeKind)
    requires
        old(an).wf(),
    ensures
        final(an).wf(),
        final(an).env() == old(an).env(),
        final(an).diags() == old(an).diags() + block_diags(*old(b), old(an).env(), *ret),
        block_annotated(*old(b), old(an).env(), *final(b)),
    decreases *old(b), 0nat,
{
    let ghost env = an.env();
    let ghost d0 = an.diags();
    match b {
        BlockStmt::While { cond, body } => {
            analyze_cond(cond, an);
            analyze_body(body, an, ret);
        },
        BlockStmt::If { cond, body } => {
            analyze_cond(cond, an);
            analyze_body(body, an, ret);
        },
        BlockStmt::IfElse { cond, true_branch, false_branch } => {
            analyze_cond(cond, an);
            analyze_body(true_branch, an, ret);
            analyze_body(false_branch, an, ret);
        },
    }
    proof {
        assert(an.diags() =~= d0 + block_diags(*old(b), env, *ret));
    }
}

/// Analyzes a statement, in a function whose return type is `ret`.
pub fn analyze_stmt(s: &mut Stmt, an: &mut TypeAnalyzer, ret: &TypeKind)
    requires
        old(an).wf(),
    ensures
        final(an).wf(),
        final(an).env() == stmt_env(*old(s), old(an).env()),
        final(an).diags() == old(an).diags() + stmt_diags(*old(s), old(an).env(), *ret),
        stmt_annotated(*old(s), old(an).env(), *final(s)),
    decreases *old(s), 1nat,
{
    match s {
        Stmt::Block(b) => {
            analyze_block(b, an, ret);
        },
        Stmt::Line(l) => {
            analyze_line(l, an, ret);
        },
        Stmt::VarDecl(v) => {
            analyze_var_decl(v, an);
        },
    }
}

} // verus!
