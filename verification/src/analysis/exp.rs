//! Typing of expressions and locations: what type each node resolves to,
//! which diagnostics it raises, and the analysis that fills the type slots.

use vstd::prelude::*;
use vstd::string::*;
use crate::analysis::env::{Diagnostic, Env, ErrorType, FunctionKind, TypeAnalyzer};
use crate::parser::ast::{
    unbox_slot,
    BinaryExp,
    BinaryExpKind,
    CallExp,
    Exp,
    ExpKind,
    Loc,
    PrimType,
    Type,
    UnaryExp,
    UnaryExpKind,
};
use crate::span::Span;

verus! {

/// What a slot holds after analysis: the type that was resolved, or what
/// the slot held before when none was.
pub open spec fn keep(result: Option<Type>, slot: Option<Type>) -> Option<Type> {
    match result {
        Some(t) => Some(t),
        None => slot,
    }
}

/// One diagnostic when `raise` holds, none otherwise.
pub open spec fn diag_if(raise: bool, kind: ErrorType, span: Span) -> Seq<Diagnostic> {
    if raise {
        seq![Diagnostic { kind, span }]
    } else {
        Seq::empty()
    }
}

/// The operand type that a unary operator asks for, which is also the type
/// of its result.
pub open spec fn unary_operand(kind: UnaryExpKind) -> PrimType {
    match kind {
        UnaryExpKind::Neg => PrimType::Int,
        UnaryExpKind::Not => PrimType::Bool,
    }
}

/// The error that a unary operator raises on an operand of another type.
pub open spec fn unary_error(kind: UnaryExpKind) -> ErrorType {
    match kind {
        UnaryExpKind::Neg => ErrorType::WrongOpMath,
        UnaryExpKind::Not => ErrorType::WrongOpLogic,
    }
}

/// Whether the operator is `==` or `!=`.
pub open spec fn is_equality(kind: BinaryExpKind) -> bool {
    kind == BinaryExpKind::Equals || kind == BinaryExpKind::NotEquals
}

/// The operand type that a binary operator other than `==` and `!=` asks
/// for: `Bool` for the logical operators, `Int` for the others.
pub open spec fn binary_operand(kind: BinaryExpKind) -> PrimType {
    match kind {
        BinaryExpKind::And | BinaryExpKind::Or => PrimType::Bool,
        _ => PrimType::Int,
    }
}

/// The type of the result of a binary operator other than `==` and `!=`:
/// `Int` for the arithmetic operators, `Bool` for the others.
pub open spec fn binary_yield(kind: BinaryExpKind) -> PrimType {
    match kind {
        BinaryExpKind::Plus | BinaryExpKind::Minus | BinaryExpKind::Times | BinaryExpKind::Divide => PrimType::Int,
        _ => PrimType::Bool,
    }
}

/// The error that a binary operator other than `==` and `!=` raises on an
/// operand of another type.
pub open spec fn binary_error(kind: BinaryExpKind) -> ErrorType {
    match kind {
        BinaryExpKind::And | BinaryExpKind::Or => ErrorType::WrongOpLogic,
        BinaryExpKind::Plus | BinaryExpKind::Minus | BinaryExpKind::Times | BinaryExpKind::Divide => ErrorType::WrongOpMath,
        _ => ErrorType::WrongOpCmp,
    }
}

/// Whether the expression is the bare name of a function or of a class.
pub open spec fn names_fn_or_class(e: Exp, env: Env) -> bool {
    match *e.kind {
        ExpKind::Loc(l) => env.is_fn_or_class(l.spec_name()),
        _ => false,
    }
}

/// Whether the type is `void`.
pub open spec fn is_void(t: Option<Type>) -> bool {
    t matches Some(x) && x.kind.spec_is_prim(PrimType::Void)
}

/// The type that a location resolves to.
pub open spec fn loc_result(l: Loc, env: Env) -> Option<Type> {
    env.lookup(l.spec_name())
}

/// The diagnostics of a location: `UndefinedDecl` when its name is that of
/// no variable in scope, no function and no class.
pub open spec fn loc_diags(l: Loc, env: Env) -> Seq<Diagnostic> {
    diag_if(
        loc_result(l, env) is None && !env.is_fn_or_class(l.spec_name()),
        ErrorType::UndefinedDecl,
        l.span,
    )
}

/// Whether `r` is the location `o` after analysis.
pub open spec fn loc_annotated(o: Loc, env: Env, r: Loc) -> bool {
    r == (Loc { loc_type: keep(loc_result(o, env), o.loc_type), ..o })
}

/// The type that analysis computes for an expression, if it computes one.
pub open spec fn exp_result(e: Exp, env: Env) -> Option<Type>
    decreases e, 1nat,
{
    match *e.kind {
        ExpKind::True => Some(Type::spec_prim(PrimType::Bool)),
        ExpKind::False => Some(Type::spec_prim(PrimType::Bool)),
        ExpKind::Magic => Some(Type::spec_prim(PrimType::Bool)),
        ExpKind::IntLit(_) => Some(Type::spec_prim(PrimType::Int)),
        ExpKind::StrLit(_) => Some(Type::spec_prim(PrimType::String)),
        ExpKind::Loc(l) => loc_result(*l, env),
        ExpKind::UnaryExp(u) => unary_result(*u, env),
        ExpKind::BinaryExp(b) => binary_result(*b, env),
        ExpKind::CallExp(c) => call_result(*c, env),
    }
}

/// What the type slot of an expression holds after analysis.
pub open spec fn exp_slot(e: Exp, env: Env) -> Option<Type>
    decreases e, 2nat,
{
    keep(exp_result(e, env), unbox_slot(e.expr_type))
}

/// The type of a unary operation: that of its operator, when the operand
/// has the type that the operator asks for.
pub open spec fn unary_result(u: UnaryExp, env: Env) -> Option<Type>
    decreases u, 0nat,
{
    match exp_slot(*u.exp, env) {
        Some(t) => if t.kind.spec_is_prim(unary_operand(*u.kind)) {
            Some(Type::spec_prim(unary_operand(*u.kind)))
        } else {
            None
        },
        None => None,
    }
}

/// The type of a binary operation. For `==` and `!=`: the type of the left
/// operand, when neither operand names a function or a class or is `void`
/// and both are of the same type. For the others: that of the operator,
/// when both operands have the type that the operator asks for.
pub open spec fn binary_result(b: BinaryExp, env: Env) -> Option<Type>
    decreases b, 0nat,
{
    let l = exp_slot(*b.lhs, env);
    let r = exp_slot(*b.rhs, env);
    if is_equality(*b.kind) {
        if names_fn_or_class(*b.lhs, env) || names_fn_or_class(*b.rhs, env) || is_void(l)
            || is_void(r) {
            None
        } else {
            match (l, r) {
                (Some(x), Some(y)) => if x.kind.spec_same(*y.kind) {
                    Some(x)
                } else {
                    None
                },
                _ => None,
            }
        }
    } else {
        match (l, r) {
            (Some(x), Some(y)) => if x.kind.spec_is_prim(binary_operand(*b.kind))
                && y.kind.spec_is_prim(binary_operand(*b.kind)) {
                Some(Type::spec_prim(binary_yield(*b.kind)))
            } else {
                None
            },
            _ => None,
        }
    }
}

/// Whether the actual at index `i` is of a known type that agrees with the
/// formal at that index.
pub open spec fn arg_agrees(args: Seq<Box<Exp>>, formals: Seq<Type>, env: Env, i: int) -> bool
    decreases args, 0nat,
{
    0 <= i < args.len() && i < formals.len() && (exp_slot(*args[i], env) matches Some(t)
        && t.spec_agrees(formals[i]))
}

/// Whether each of the actuals `args[..n]` is of a known type that agrees
/// with its formal.
pub open spec fn args_agree(args: Seq<Box<Exp>>, formals: Seq<Type>, env: Env, n: int) -> bool
    decreases args, n,
{
    if n <= 0 || n > args.len() {
        true
    } else {
        args_agree(args, formals, env, n - 1) && arg_agrees(args, formals, env, n - 1)
    }
}

/// The type of a call: the return type of the callee, when the callee is a
/// function, the number of actuals is that of its formals, and each actual
/// is of a known type that agrees with its formal.
pub open spec fn call_result(c: CallExp, env: Env) -> Option<Type>
    decreases c, 0nat,
{
    let name = c.name.spec_name();
    if env.functions.contains_key(name) {
        let sig = env.functions[name];
        if c.args@.len() == sig.args.len() && args_agree(c.args@, sig.args, env, c.args@.len() as int) {
            Some(sig.ret)
        } else {
            None
        }
    } else {
        None
    }
}

/// The diagnostics that analysis raises on an expression, in the order in
/// which it raises them.
pub open spec fn exp_diags(e: Exp, env: Env) -> Seq<Diagnostic>
    decreases e, 1nat,
{
    match *e.kind {
        ExpKind::Loc(l) => loc_diags(*l, env),
        ExpKind::UnaryExp(u) => unary_diags(*u, env),
        ExpKind::BinaryExp(b) => binary_diags(*b, env),
        ExpKind::CallExp(c) => call_diags(*c, env),
        _ => Seq::empty(),
    }
}

/// The diagnostic that a unary operator raises itself: its error, at the
/// operand, when the operand is of a known type other than the one asked
/// for.
pub open spec fn unary_own_diags(u: UnaryExp, env: Env) -> Seq<Diagnostic> {
    diag_if(
        exp_slot(*u.exp, env) matches Some(t) && !t.kind.spec_is_prim(unary_operand(*u.kind)),
        unary_error(*u.kind),
        u.exp.span,
    )
}

/// The diagnostics of a unary operation: those of its operand, then its
/// own.
pub open spec fn unary_diags(u: UnaryExp, env: Env) -> Seq<Diagnostic>
    decreases u, 0nat,
{
    exp_diags(*u.exp, env) + unary_own_diags(u, env)
}

/// The diagnostics that a binary operator raises itself.
///
/// For `==` and `!=`: `BadEqualityOne` at each operand that names a
/// function or a class, then at each operand that is `void`; if there was
/// none of these and both operands are of known types that differ,
/// `BadEqualityTwo` at the whole operation.
///
/// For the others, when both operands are of known types: the operator's
/// error at each operand that is not of the type asked for.
pub open spec fn binary_own_diags(b: BinaryExp, env: Env) -> Seq<Diagnostic> {
    let l = exp_slot(*b.lhs, env);
    let r = exp_slot(*b.rhs, env);
    if is_equality(*b.kind) {
        let bad = diag_if(names_fn_or_class(*b.lhs, env), ErrorType::BadEqualityOne, b.lhs.span)
            + diag_if(names_fn_or_class(*b.rhs, env), ErrorType::BadEqualityOne, b.rhs.span)
            + diag_if(is_void(l), ErrorType::BadEqualityOne, b.lhs.span) + diag_if(
            is_void(r),
            ErrorType::BadEqualityOne,
            b.rhs.span,
        );
        if bad.len() > 0 {
            bad
        } else {
            diag_if(
                l is Some && r is Some && !l->0.kind.spec_same(*r->0.kind),
                ErrorType::BadEqualityTwo,
                b.span,
            )
        }
    } else {
        if l is Some && r is Some {
            diag_if(
                !l->0.kind.spec_is_prim(binary_operand(*b.kind)),
                binary_error(*b.kind),
                b.lhs.span,
            ) + diag_if(
                !r->0.kind.spec_is_prim(binary_operand(*b.kind)),
                binary_error(*b.kind),
                b.rhs.span,
            )
        } else {
            Seq::empty()
        }
    }
}

/// The diagnostics of a binary operation: those of its left operand, those
/// of its right operand, then its own.
pub open spec fn binary_diags(b: BinaryExp, env: Env) -> Seq<Diagnostic>
    decreases b, 0nat,
{
    exp_diags(*b.lhs, env) + exp_diags(*b.rhs, env) + binary_own_diags(b, env)
}

/// The diagnostic of one actual against its formal: `FnWrongArgType` at
/// the actual, when there is a formal at its index and the actual is of a
/// known type that does not agree with it.
pub open spec fn arg_own_diags(args: Seq<Box<Exp>>, formals: Seq<Type>, env: Env, i: int) -> Seq<
    Diagnostic,
>
    decreases args, 0nat,
{
    if 0 <= i < args.len() {
        diag_if(
            i < formals.len() && (exp_slot(*args[i], env) matches Some(t) && !t.spec_agrees(
                formals[i],
            )),
            ErrorType::FnWrongArgType,
            args[i].span,
        )
    } else {
        Seq::empty()
    }
}

/// The diagnostics of the actuals `args[..n]`: for each in turn, those of
/// the actual itself, then that of the actual against its formal.
pub open spec fn args_diags(args: Seq<Box<Exp>>, formals: Seq<Type>, env: Env, n: int) -> Seq<
    Diagnostic,
>
    decreases args, n,
{
    if n <= 0 || n > args.len() {
        Seq::empty()
    } else {
        args_diags(args, formals, env, n - 1) + exp_diags(*args[n - 1], env) + arg_own_diags(
            args,
            formals,
            env,
            n - 1,
        )
    }
}

/// The formals that the actuals of a call are held against: those of the
/// callee, or none when the callee is not a function.
pub open spec fn call_formals(c: CallExp, env: Env) -> Seq<Type> {
    if env.functions.contains_key(c.name.spec_name()) {
        env.functions[c.name.spec_name()].args
    } else {
        Seq::empty()
    }
}

/// The diagnostics of a call: `CallNonFn` at the callee when it is not a
/// function, or else `FnWrongArgNum` at the call when the number of
/// actuals is not that of the formals; then those of the actuals.
pub open spec fn call_diags(c: CallExp, env: Env) -> Seq<Diagnostic>
    decreases c, 0nat,
{
    let name = c.name.spec_name();
    let head = if !env.functions.contains_key(name) {
        seq![Diagnostic { kind: ErrorType::CallNonFn, span: c.name.span }]
    } else {
        diag_if(
            c.args@.len() != env.functions[name].args.len(),
            ErrorType::FnWrongArgNum,
            c.span,
        )
    };
    head + args_diags(c.args@, call_formals(c, env), env, c.args@.len() as int)
}

/// Whether `r` is the expression `o` after analysis: the same expression,
/// with the type slot of each of its nodes holding what analysis resolved
/// for that node.
pub open spec fn exp_annotated(o: Exp, env: Env, r: Exp) -> bool
    decreases o, 1nat,
{
    &&& r.span == o.span
    &&& unbox_slot(r.expr_type) == exp_slot(o, env)
    &&& match *o.kind {
        ExpKind::Loc(l) => *r.kind matches ExpKind::Loc(l2) && loc_annotated(*l, env, *l2),
        ExpKind::UnaryExp(u) => *r.kind matches ExpKind::UnaryExp(u2) && unary_annotated(
            *u,
            env,
            *u2,
        ),
        ExpKind::BinaryExp(b) => *r.kind matches ExpKind::BinaryExp(b2) && binary_annotated(
            *b,
            env,
            *b2,
        ),
        ExpKind::CallExp(c) => *r.kind matches ExpKind::CallExp(c2) && call_annotated(*c, env, *c2),
        _ => *r.kind == *o.kind,
    }
}

/// Whether `r` is the unary operation `o` after analysis.
pub open spec fn unary_annotated(o: UnaryExp, env: Env, r: UnaryExp) -> bool
    decreases o, 0nat,
{
    &&& r.span == o.span
    &&& r.kind == o.kind
    &&& unbox_slot(r.expr_type) == keep(unary_result(o, env), unbox_slot(o.expr_type))
    &&& exp_annotated(*o.exp, env, *r.exp)
}

/// Whether `r` is the binary operation `o` after analysis.
pub open spec fn binary_annotated(o: BinaryExp, env: Env, r: BinaryExp) -> bool
    decreases o, 0nat,
{
    &&& r.span == o.span
    &&& r.kind == o.kind
    &&& unbox_slot(r.expr_type) == keep(binary_result(o, env), unbox_slot(o.expr_type))
    &&& exp_annotated(*o.lhs, env, *r.lhs)
    &&& exp_annotated(*o.rhs, env, *r.rhs)
}

/// Whether `rs` are the actuals `os` after analysis.
pub open spec fn args_annotated(os: Seq<Box<Exp>>, env: Env, rs: Seq<Box<Exp>>) -> bool
    decreases os, 0nat,
{
    &&& rs.len() == os.len()
    &&& forall|i: int| 0 <= i < os.len() ==> exp_annotated(*#[trigger] os[i], env, *rs[i])
}

/// Whether `r` is the call `o` after analysis.
pub open spec fn call_annotated(o: CallExp, env: Env, r: CallExp) -> bool
    decreases o, 0nat,
{
    &&& r.span == o.span
    &&& r.name == o.name
    &&& r.fn_type == keep(call_result(o, env), o.fn_type)
    &&& args_annotated(o.args@, env, r.args@)
}

/// Whether the expression is the bare name of a function or of a class.
pub fn fn_or_class_name(e: &Exp, an: &TypeAnalyzer) -> (b: bool)
    ensures
        b == names_fn_or_class(*e, an.env()),
{
    match &*e.kind {
        ExpKind::Loc(l) => {
            let n = l.name();
            an.has_class(&n) || an.has_fn(&n)
        },
        _ => false,
    }
}

/// Whether the location is the name of a function or of a class.
pub fn loc_is_fn_or_class(l: &Loc, an: &TypeAnalyzer) -> (b: bool)
    ensures
        b == an.env().is_fn_or_class(l.spec_name()),
{
    let n = l.name();
    an.has_class(&n) || an.has_fn(&n)
}

/// Resolves a location: fills its type slot when its name is that of a
/// variable in scope, and reports `UndefinedDecl` when it is that of
/// nothing at all. Gives back the type resolved.
pub fn analyze_loc(l: &mut Loc, an: &mut TypeAnalyzer) -> (r: Option<Type>)
    requires
        old(an).wf(),
    ensures
        final(an).wf(),
        final(an).env() == old(an).env(),
        final(an).diags() == old(an).diags() + loc_diags(*old(l), old(an).env()),
        loc_annotated(*old(l), old(an).env(), *final(l)),
        r == loc_result(*old(l), old(an).env()),
{
    let name = l.name();
    match an.get_var_type(name.clone()) {
        Ok(t) => {
            l.loc_type = Some(t.copy());
            proof {
                assert(final(an).diags() =~= old(an).diags() + loc_diags(*old(l), old(an).env()));
            }
            Some(t)
        },
        Err(_) => {
            if !(an.has_class(&name) || an.has_fn(&name)) {
                an.report_error(ErrorType::UndefinedDecl, l.span);
            }
            proof {
                assert(final(an).diags() =~= old(an).diags() + loc_diags(*old(l), old(an).env()));
            }
            None
        },
    }
}

/// The operand type that a unary operator asks for.
pub fn operand_of_unary(kind: UnaryExpKind) -> (p: PrimType)
    ensures
        p == unary_operand(kind),
{
    match kind {
        UnaryExpKind::Neg => PrimType::Int,
        UnaryExpKind::Not => PrimType::Bool,
    }
}

/// The error that a unary operator raises on an operand of another type.
pub fn error_of_unary(kind: UnaryExpKind) -> (e: ErrorType)
    ensures
        e == unary_error(kind),
{
    match kind {
        UnaryExpKind::Neg => ErrorType::WrongOpMath,
        UnaryExpKind::Not => ErrorType::WrongOpLogic,
    }
}

/// Whether the operator is `==` or `!=`.
pub fn equality(kind: BinaryExpKind) -> (b: bool)
    ensures
        b == is_equality(kind),
{
    match kind {
        BinaryExpKind::Equals | BinaryExpKind::NotEquals => true,
        _ => false,
    }
}

/// The operand type that a binary operator other than `==` and `!=` asks
/// for.
pub fn operand_of_binary(kind: BinaryExpKind) -> (p: PrimType)
    ensures
        p == binary_operand(kind),
{
    match kind {
        BinaryExpKind::And | BinaryExpKind::Or => PrimType::Bool,
        _ => PrimType::Int,
    }
}

/// The type of the result of a binary operator other than `==` and `!=`.
pub fn yield_of_binary(kind: BinaryExpKind) -> (p: PrimType)
    ensures
        p == binary_yield(kind),
{
    match kind {
        BinaryExpKind::Plus | BinaryExpKind::Minus | BinaryExpKind::Times | BinaryExpKind::Divide => PrimType::Int,
        _ => PrimType::Bool,
    }
}

/// The error that a binary operator other than `==` and `!=` raises on an
/// operand of another type.
pub fn error_of_binary(kind: BinaryExpKind) -> (e: ErrorType)
    ensures
        e == binary_error(kind),
{
    match kind {
        BinaryExpKind::And | BinaryExpKind::Or => ErrorType::WrongOpLogic,
        BinaryExpKind::Plus | BinaryExpKind::Minus | BinaryExpKind::Times | BinaryExpKind::Divide => ErrorType::WrongOpMath,
        _ => ErrorType::WrongOpCmp,
    }
}

/// Whether the slot holds the type `void`.
pub fn slot_is_void(slot: &Option<Box<Type>>) -> (b: bool)
    ensures
        b == is_void(unbox_slot(*slot)),
{
    match slot {
        Some(t) => t.kind.is_prim(PrimType::Void),
        None => false,
    }
}

/// Analyzes an expression: fills the type slot of each of its nodes for
/// which a type can be resolved, and reports what is wrong with it.
pub fn analyze_exp(e: &mut Exp, an: &mut TypeAnalyzer)
    requires
        old(an).wf(),
    ensures
        final(an).wf(),
        final(an).env() == old(an).env(),
        final(an).diags() == old(an).diags() + exp_diags(*old(e), old(an).env()),
        exp_annotated(*old(e), old(an).env(), *final(e)),
    decreases *old(e), 1nat,
{
    let ghost env = an.env();
    let ghost d0 = an.diags();
    let literal: Option<PrimType> = match &*e.kind {
        ExpKind::True => Some(PrimType::Bool),
        ExpKind::False => Some(PrimType::Bool),
        ExpKind::Magic => Some(PrimType::Bool),
        ExpKind::IntLit(_) => Some(PrimType::Int),
        ExpKind::StrLit(_) => Some(PrimType::String),
        _ => None,
    };
    let result: Option<Type> = match literal {
        Some(p) => Some(Type::prim(p)),
        None => match &mut *e.kind {
            ExpKind::Loc(l) => analyze_loc(l, an),
            ExpKind::UnaryExp(u) => eval_unary(u, an),
            ExpKind::BinaryExp(b) => eval_binary(b, an),
            ExpKind::CallExp(c) => eval_call(c, an),
            _ => None,
        },
    };
    proof {
        assert(result == exp_result(*old(e), env));
        assert(an.diags() =~= d0 + exp_diags(*old(e), env));
    }
    match result {
        Some(t) => {
            e.expr_type = Some(Box::new(t));
        },
        None => {},
    }
}

/// Analyzes a unary operation and gives back its type.
pub fn eval_unary(u: &mut UnaryExp, an: &mut TypeAnalyzer) -> (r: Option<Type>)
    requires
        old(an).wf(),
    ensures
        final(an).wf(),
        final(an).env() == old(an).env(),
        final(an).diags() == old(an).diags() + unary_diags(*old(u), old(an).env()),
        unary_annotated(*old(u), old(an).env(), *final(u)),
        r == unary_result(*old(u), old(an).env()),
    decreases *old(u), 0nat,
{
    let ghost env = an.env();
    let ghost d0 = an.diags();
    analyze_exp(&mut u.exp, an);
    let want = operand_of_unary(*u.kind);
    let fits = match &u.exp.expr_type {
        Some(t) => Some(t.kind.is_prim(want)),
        None => None,
    };
    match fits {
        None => {
            proof {
                assert(an.diags() =~= d0 + unary_diags(*old(u), env));
            }
            None
        },
        Some(true) => {
            u.expr_type = Some(Box::new(Type::prim(want)));
            proof {
                assert(an.diags() =~= d0 + unary_diags(*old(u), env));
            }
            Some(Type::prim(want))
        },
        Some(false) => {
            an.report_error(error_of_unary(*u.kind), u.exp.span);
            proof {
                assert(an.diags() =~= d0 + unary_diags(*old(u), env));
            }
            None
        },
    }
}

/// Analyzes a binary operation and gives back its type.
pub fn eval_binary(b: &mut BinaryExp, an: &mut TypeAnalyzer) -> (r: Option<Type>)
    requires
        old(an).wf(),
    ensures
        final(an).wf(),
        final(an).env() == old(an).env(),
        final(an).diags() == old(an).diags() + binary_diags(*old(b), old(an).env()),
        binary_annotated(*old(b), old(an).env(), *final(b)),
        r == binary_result(*old(b), old(an).env()),
    decreases *old(b), 0nat,
{
    let ghost env = an.env();
    let ghost d0 = an.diags();
    let lhs_named = fn_or_class_name(&b.lhs, an);
    let rhs_named = fn_or_class_name(&b.rhs, an);
    analyze_exp(&mut b.lhs, an);
    let ghost d1 = an.diags();
    analyze_exp(&mut b.rhs, an);
    let ghost d2 = an.diags();
    let kind = *b.kind;
    let r = if equality(kind) {
        let lhs_void = slot_is_void(&b.lhs.expr_type);
        let rhs_void = slot_is_void(&b.rhs.expr_type);
        if lhs_named {
            an.report_error(ErrorType::BadEqualityOne, b.lhs.span);
        }
        if rhs_named {
            an.report_error(ErrorType::BadEqualityOne, b.rhs.span);
        }
        if lhs_void {
            an.report_error(ErrorType::BadEqualityOne, b.lhs.span);
        }
        if rhs_void {
            an.report_error(ErrorType::BadEqualityOne, b.rhs.span);
        }
        if lhs_named || rhs_named || lhs_void || rhs_void {
            proof {
                assert(an.diags() =~= d2 + binary_own_diags(*old(b), env));
            }
            None
        } else {
            let same = match &b.lhs.expr_type {
                Some(x) => match &b.rhs.expr_type {
                    Some(y) => Some(x.kind.same(&y.kind)),
                    None => None,
                },
                None => None,
            };
            match same {
                Some(true) => {
                    let t = match &b.lhs.expr_type {
                        Some(x) => Some(x.copy()),
                        None => None,
                    };
                    proof {
                        assert(an.diags() =~= d2 + binary_own_diags(*old(b), env));
                    }
                    t
                },
                Some(false) => {
                    an.report_error(ErrorType::BadEqualityTwo, b.span);
                    proof {
                        assert(an.diags() =~= d2 + binary_own_diags(*old(b), env));
                    }
                    None
                },
                None => {
                    proof {
                        assert(an.diags() =~= d2 + binary_own_diags(*old(b), env));
                    }
                    None
                },
            }
        }
    } else {
        let want = operand_of_binary(kind);
        let fits = match &b.lhs.expr_type {
            Some(x) => match &b.rhs.expr_type {
                Some(y) => Some((x.kind.is_prim(want), y.kind.is_prim(want))),
                None => None,
            },
            None => None,
        };
        match fits {
            Some((lhs_fits, rhs_fits)) => {
                if !lhs_fits {
                    an.report_error(error_of_binary(kind), b.lhs.span);
                }
                if !rhs_fits {
                    an.report_error(error_of_binary(kind), b.rhs.span);
                }
                proof {
                    assert(an.diags() =~= d2 + binary_own_diags(*old(b), env));
                }
                if lhs_fits && rhs_fits {
                    Some(Type::prim(yield_of_binary(kind)))
                } else {
                    None
                }
            },
            None => {
                proof {
                    assert(an.diags() =~= d2 + binary_own_diags(*old(b), env));
                }
                None
            },
        }
    };
    proof {
        assert(an.diags() =~= d0 + binary_diags(*old(b), env));
    }
    match &r {
        Some(t) => {
            b.expr_type = Some(Box::new(t.copy()));
        },
        None => {},
    }
    r
}

/// A copy of the types of the formals of a signature, and of its return
/// type.
pub fn copy_signature(k: &FunctionKind) -> (r: (Vec<Type>, Type))
    ensures
        r.0@ == k.arg_types@,
        r.1 == k.return_type,
{
    let mut args: Vec<Type> = Vec::new();
    let mut i: usize = 0;
    while i < k.arg_types.len()
        invariant
            i <= k.arg_types@.len(),
            args@ == k.arg_types@.take(i as int),
        decreases k.arg_types@.len() - i,
    {
        args.push(k.arg_types[i].copy());
        proof {
            assert(k.arg_types@.take(i as int).push(k.arg_types@[i as int]) =~= k.arg_types@.take(
                i + 1,
            ));
        }
        i += 1;
    }
    proof {
        assert(k.arg_types@.take(k.arg_types@.len() as int) =~= k.arg_types@);
    }
    (args, k.return_type.copy())
}

/// Analyzes a call and gives back its type.
pub fn eval_call(c: &mut CallExp, an: &mut TypeAnalyzer) -> (r: Option<Type>)
    requires
        old(an).wf(),
    ensures
        final(an).wf(),
        final(an).env() == old(an).env(),
        final(an).diags() == old(an).diags() + call_diags(*old(c), old(an).env()),
        call_annotated(*old(c), old(an).env(), *final(c)),
        r == call_result(*old(c), old(an).env()),
    decreases *old(c), 0nat,
{
    let ghost env = an.env();
    let ghost d0 = an.diags();
    let ghost orig = *c;
    let name = c.name.name();
    let n = c.args.len();
    let sig: Option<(Vec<Type>, Type)> = match an.get_fn(&name) {
        Ok(k) => Some(copy_signature(k)),
        Err(_) => None,
    };
    let mut ok = true;
    match &sig {
        None => {
            an.report_error(ErrorType::CallNonFn, c.name.span);
            ok = false;
        },
        Some(s) => {
            if n != s.0.len() {
                an.report_error(ErrorType::FnWrongArgNum, c.span);
                ok = false;
            }
        },
    }
    let ghost formals = call_formals(orig, env);
    let ghost d1 = an.diags();
    let ghost ok1 = ok;
    proof {
        assert(d1 =~= d0 + (d1.subrange(d0.len() as int, d1.len() as int)));
        assert(d1 =~= d1 + args_diags(orig.args@, formals, env, 0));
    }
    let mut i: usize = 0;
    while i < n
        invariant
            i <= n,
            n == c.args@.len(),
            n == orig.args@.len(),
            orig == *old(c),
            an.wf(),
            an.env() == env,
            c.span == orig.span,
            c.name == orig.name,
            c.fn_type == orig.fn_type,
            formals == call_formals(orig, env),
            sig matches Some(s) ==> s.0@ == formals && env.functions.contains_key(
                orig.name.spec_name(),
            ),
            sig is None ==> formals.len() == 0,
            an.diags() == d1 + args_diags(orig.args@, formals, env, i as int),
            ok == (ok1 && args_agree(orig.args@, formals, env, i as int)),
            ok1 ==> n == formals.len(),
            forall|j: int| 0 <= j < i ==> exp_annotated(*#[trigger] orig.args@[j], env, *c.args@[j]),
            forall|j: int| i <= j < n ==> c.args@[j] == orig.args@[j],
        decreases n - i,
    {
        proof {
            assert(c.args@[i as int] == orig.args@[i as int]);
            assert(decreases_to!(orig => orig.args));
            assert(decreases_to!(orig.args => orig.args@));
            assert(decreases_to!(orig.args@ => orig.args@[i as int]));
        }
        analyze_exp(&mut c.args[i], an);
        let ghost db = an.diags();
        match &sig {
            Some(s) => {
                if i < s.0.len() {
                    match &c.args[i].expr_type {
                        Some(t) => {
                            if !t.agrees(&s.0[i]) {
                                an.report_error(ErrorType::FnWrongArgType, c.args[i].span);
                                ok = false;
                            }
                        },
                        None => {
                            ok = false;
                        },
                    }
                }
            },
            None => {},
        }
        proof {
            assert(unbox_slot(c.args@[i as int].expr_type) == exp_slot(*orig.args@[i as int], env));
            assert(args_agree(orig.args@, formals, env, i + 1) == (args_agree(
                orig.args@,
                formals,
                env,
                i as int,
            ) && arg_agrees(orig.args@, formals, env, i as int)));
            assert(an.diags() =~= db + arg_own_diags(orig.args@, formals, env, i as int));
            assert(an.diags() =~= d1 + args_diags(orig.args@, formals, env, i + 1));
        }
        i += 1;
    }
    proof {
        assert(an.diags() =~= d0 + call_diags(orig, env));
    }
    if ok {
        match sig {
            Some(s) => {
                c.fn_type = Some(s.1.copy());
                Some(s.1)
            },
            None => None,
        }
    } else {
        None
    }
}

} // verus!
