//! Laws of the analysis: what holds of every program and every
//! environment.

use vstd::prelude::*;
use vstd::string::*;
use crate::analysis::env::{
    all_primitive,
    bind,
    bind_fields,
    classes_flat,
    dotted,
    lookup_var,
    member_fields,
    members_fields,
    Env,
    FieldSig,
};
use crate::analysis::exp::{
    arg_agrees,
    arg_own_diags,
    args_diags,
    binary_diags,
    call_diags,
    call_formals,
    exp_diags,
    loc_diags,
    unary_diags,
    args_agree,
    args_annotated,
    binary_annotated,
    binary_result,
    call_annotated,
    call_result,
    exp_annotated,
    exp_result,
    exp_slot,
    loc_annotated,
    loc_result,
    names_fn_or_class,
    unary_annotated,
    unary_result,
};
use crate::analysis::program::{
    decl_annotated,
    decl_diags,
    decls_diags,
    fn_diags,
    program_diags,
    program_env,
    register_diags,
    decl_env,
    decls_env,
    fn_annotated,
    fn_scope,
    program_annotated,
    register_env,
    registered,
};
use crate::analysis::stmt::{
    block_annotated,
    block_diags,
    line_diags,
    stmt_diags,
    stmts_diags,
    var_decl_diags,
    line_annotated,
    stmt_annotated,
    stmt_env,
    stmts_annotated,
    stmts_env,
    var_decl_annotated,
};
use crate::parser::ast::{
    unbox_slot,
    BinaryExp,
    BlockStmt,
    CallExp,
    ClassDecl,
    Decl,
    Exp,
    ExpKind,
    FnDecl,
    LineStmt,
    LineStmtKind,
    Loc,
    Program,
    Stmt,
    Type,
    TypeKind,
    UnaryExp,
    VarDecl,
};

verus! {

/// Shadowing: a name that resolves to `outer`, once declared with the type
/// `inner` in a newly opened scope, resolves to `inner` for as long as that
/// scope is open; when the scope is closed, the environment is what it was
/// before, and the name resolves to `outer` again.
pub proof fn lemma_scope_shadowing(env: Env, x: Seq<char>, outer: Type, inner: Type)
    requires
        env.scopes.len() >= 1,
        env.lookup(x) == Some(outer),
    ensures
        env.enter().with_var(x, inner).lookup(x) == Some(inner),
        env.enter().with_var(x, inner).leave() == env,
        env.enter().with_var(x, inner).leave().lookup(x) == Some(outer),
{
    let opened = env.enter();
    let declared = opened.with_var(x, inner);
    assert(declared.scopes.drop_last() =~= env.scopes);
}

/// A name that an inner scope does not declare resolves, while that scope
/// is open, to what it resolved to before the scope was opened.
pub proof fn lemma_scope_transparent(env: Env, x: Seq<char>, y: Seq<char>, inner: Type)
    requires
        env.scopes.len() >= 1,
        x != y,
    ensures
        env.enter().lookup(x) == env.lookup(x),
        env.enter().with_var(y, inner).lookup(x) == env.lookup(x),
{
    let opened = env.enter();
    assert(opened.scopes.drop_last() =~= env.scopes);
    let declared = opened.with_var(y, inner);
    assert(declared.scopes.drop_last() =~= env.scopes);
}

/// The flattened fields of the members of a class are all of primitive
/// types, provided that those of the classes known so far are.
pub proof fn lemma_members_fields_primitive(
    ms: Seq<Box<Decl>>,
    n: int,
    classes: Map<Seq<char>, Seq<FieldSig>>,
)
    requires
        classes_flat(classes),
    ensures
        all_primitive(members_fields(ms, n, classes)),
    decreases n,
{
    if 0 < n <= ms.len() {
        lemma_members_fields_primitive(ms, n - 1, classes);
        let before = members_fields(ms, n - 1, classes);
        let here = member_fields(*ms[n - 1], classes);
        assert(all_primitive(here)) by {
            match *ms[n - 1] {
                Decl::VarDecl(v) => match *v.var_type.kind {
                    TypeKind::Class(c) => {
                        if classes.contains_key(c.name@) {
                            assert(all_primitive(classes[c.name@]));
                        }
                    },
                    TypeKind::Prim(_) => {},
                },
                _ => {},
            }
        }
        assert forall|i: int| 0 <= i < (before + here).len() implies *(#[trigger] (before
            + here)[i]).field_type.kind is Prim by {
            if i < before.len() {
                assert((before + here)[i] == before[i]);
            } else {
                assert((before + here)[i] == here[i - before.len()]);
            }
        }
    }
}

/// Class flattening keeps no field of a class type: when the flattened
/// fields of every known class are of primitive types, they still are
/// after a class has been registered, whatever its members.
pub proof fn lemma_class_flattening_flat(env: Env, c: ClassDecl)
    requires
        env.flat(),
    ensures
        env.with_class(c).flat(),
{
    lemma_members_fields_primitive(c.member_f@, c.member_f@.len() as int, env.classes);
}

/// Class flattening names by dotted concatenation: a member `field` of a
/// known class `inner` gives, for each flattened field of `inner`, one
/// field named `field--name` of the same type, in the same order, and
/// nothing else.
pub proof fn lemma_class_flattening_names(env: Env, v: VarDecl, inner: Seq<char>, i: int)
    requires
        *v.var_type.kind matches TypeKind::Class(c) && c.name@ == inner,
        env.classes.contains_key(inner),
        0 <= i < env.classes[inner].len(),
    ensures
        member_fields(Decl::VarDecl(Box::new(v)), env.classes).len() == env.classes[inner].len(),
        member_fields(Decl::VarDecl(Box::new(v)), env.classes)[i].id == dotted(
            v.id.name@,
            env.classes[inner][i].id,
        ),
        member_fields(Decl::VarDecl(Box::new(v)), env.classes)[i].field_type
            == env.classes[inner][i].field_type,
{
}

/// Binding the fields of an instance binds the last of them under its
/// dotted name, and leaves every other scope as it was.
pub proof fn lemma_bind_fields_binds(
    scopes: Seq<Map<Seq<char>, Type>>,
    owner: Seq<char>,
    fields: Seq<FieldSig>,
    i: int,
    k: int,
)
    requires
        scopes.len() >= 1,
        0 <= i <= k < fields.len(),
    ensures
        bind_fields(scopes, owner, fields, i).len() == scopes.len(),
        bind_fields(scopes, owner, fields, i).last().contains_key(dotted(owner, fields[k].id)),
    decreases fields.len() - i,
{
    let next = bind(scopes, dotted(owner, fields[i].id), fields[i].field_type);
    if i < k {
        lemma_bind_fields_binds(next, owner, fields, i + 1, k);
    } else {
        lemma_bind_fields_keeps(next, owner, fields, i + 1, dotted(owner, fields[k].id));
    }
}

/// Binding the fields of an instance removes no binding.
pub proof fn lemma_bind_fields_keeps(
    scopes: Seq<Map<Seq<char>, Type>>,
    owner: Seq<char>,
    fields: Seq<FieldSig>,
    i: int,
    name: Seq<char>,
)
    requires
        scopes.len() >= 1,
        scopes.last().contains_key(name),
    ensures
        bind_fields(scopes, owner, fields, i).len() == scopes.len(),
        bind_fields(scopes, owner, fields, i).last().contains_key(name),
    decreases fields.len() - i,
{
    if 0 <= i < fields.len() {
        let next = bind(scopes, dotted(owner, fields[i].id), fields[i].field_type);
        lemma_bind_fields_keeps(next, owner, fields, i + 1, name);
    }
}

/// An instance of a class gives one variable for each flattened field of
/// the class, under the name `owner--field`.
pub proof fn lemma_instance_fields_bound(env: Env, owner: Seq<char>, class: Seq<char>, k: int)
    requires
        env.scopes.len() >= 1,
        env.classes.contains_key(class),
        0 <= k < env.classes[class].len(),
    ensures
        env.with_instance(owner, class).lookup(dotted(owner, env.classes[class][k].id)) is Some,
{
    lemma_bind_fields_binds(env.scopes, owner, env.classes[class], 0, k);
}

/// Binding the fields of an instance leaves every name that is not the
/// dotted name of one of them resolving as before.
pub proof fn lemma_bind_fields_others(
    scopes: Seq<Map<Seq<char>, Type>>,
    owner: Seq<char>,
    fields: Seq<FieldSig>,
    i: int,
    x: Seq<char>,
)
    requires
        0 <= i,
        forall|k: int| i <= k < fields.len() ==> x != dotted(owner, (#[trigger] fields[k]).id),
    ensures
        lookup_var(bind_fields(scopes, owner, fields, i), x) == lookup_var(scopes, x),
    decreases fields.len() - i,
{
    if i < fields.len() {
        let name = dotted(owner, fields[i].id);
        let next = bind(scopes, name, fields[i].field_type);
        assert(x != dotted(owner, fields[i].id));
        if scopes.len() > 0 {
            assert(next.drop_last() =~= scopes.drop_last());
        }
        lemma_bind_fields_others(next, owner, fields, i + 1, x);
    }
}

/// An instance of a class gives no variable but those of the flattened
/// fields: every name that is not `owner--field` for one of them resolves
/// as it did before the instance was declared.
pub proof fn lemma_instance_binds_only_fields(env: Env, owner: Seq<char>, class: Seq<char>, x: Seq<char>)
    requires
        env.classes.contains_key(class),
        forall|k: int|
            0 <= k < env.classes[class].len() ==> x != dotted(
                owner,
                (#[trigger] env.classes[class][k]).id,
            ),
    ensures
        env.with_instance(owner, class).lookup(x) == env.lookup(x),
{
    lemma_bind_fields_others(env.scopes, owner, env.classes[class], 0, x);
}

/// An instance of a class gives no variable under its own name: the name
/// of the aggregate resolves as it did before the instance was declared.
pub proof fn lemma_instance_aggregate_not_bound(env: Env, owner: Seq<char>, class: Seq<char>)
    ensures
        env.with_instance(owner, class).lookup(owner) == env.lookup(owner),
{
    if env.classes.contains_key(class) {
        reveal_strlit("--");
        assert forall|k: int| 0 <= k < env.classes[class].len() implies owner != dotted(
            owner,
            (#[trigger] env.classes[class][k]).id,
        ) by {
            assert(dotted(owner, env.classes[class][k].id).len() >= owner.len() + 2);
        }
        lemma_instance_binds_only_fields(env, owner, class, owner);
    }
}

/// A location after analysis resolves as before and raises what it raised
/// before, and analysis leaves it as it is.
pub proof fn lemma_loc_fixed(o: Loc, env: Env, r: Loc)
    requires
        loc_annotated(o, env, r),
    ensures
        r.spec_name() == o.spec_name(),
        loc_result(r, env) == loc_result(o, env),
        loc_diags(r, env) == loc_diags(o, env),
        loc_annotated(r, env, r),
{
    assert(r.kind == o.kind);
    assert(r.spec_name() == o.spec_name()) by {
        reveal_with_fuel(Loc::spec_name, 2);
    }
}

/// An expression after analysis has the type that analysis gave it and
/// raises what it raised before, and analysis leaves it as it is.
pub proof fn lemma_exp_fixed(o: Exp, env: Env, r: Exp)
    requires
        exp_annotated(o, env, r),
    ensures
        exp_result(r, env) == exp_result(o, env),
        exp_slot(r, env) == exp_slot(o, env),
        exp_diags(r, env) == exp_diags(o, env),
        names_fn_or_class(r, env) == names_fn_or_class(o, env),
        exp_annotated(r, env, r),
    decreases o, 1nat,
{
    match *o.kind {
        ExpKind::Loc(l) => {
            let l2 = r.kind->Loc_0;
            lemma_loc_fixed(*l, env, *l2);
        },
        ExpKind::UnaryExp(u) => {
            let u2 = r.kind->UnaryExp_0;
            lemma_unary_fixed(*u, env, *u2);
        },
        ExpKind::BinaryExp(b) => {
            let b2 = r.kind->BinaryExp_0;
            lemma_binary_fixed(*b, env, *b2);
        },
        ExpKind::CallExp(c) => {
            let c2 = r.kind->CallExp_0;
            lemma_call_fixed(*c, env, *c2);
        },
        _ => {},
    }
}

/// A unary operation after analysis has the type that analysis gave it.
pub proof fn lemma_unary_fixed(o: UnaryExp, env: Env, r: UnaryExp)
    requires
        unary_annotated(o, env, r),
    ensures
        unary_result(r, env) == unary_result(o, env),
        unary_diags(r, env) == unary_diags(o, env),
        unary_annotated(r, env, r),
    decreases o, 0nat,
{
    lemma_exp_fixed(*o.exp, env, *r.exp);
}

/// A binary operation after analysis has the type that analysis gave it.
pub proof fn lemma_binary_fixed(o: BinaryExp, env: Env, r: BinaryExp)
    requires
        binary_annotated(o, env, r),
    ensures
        binary_result(r, env) == binary_result(o, env),
        binary_diags(r, env) == binary_diags(o, env),
        binary_annotated(r, env, r),
    decreases o, 0nat,
{
    lemma_exp_fixed(*o.lhs, env, *r.lhs);
    lemma_exp_fixed(*o.rhs, env, *r.rhs);
}

/// The actuals of a call after analysis agree with the formals as they did
/// before, and raise what they raised before.
pub proof fn lemma_args_fixed(os: Seq<Box<Exp>>, formals: Seq<Type>, env: Env, rs: Seq<Box<Exp>>, n: int)
    requires
        args_annotated(os, env, rs),
    ensures
        args_agree(rs, formals, env, n) == args_agree(os, formals, env, n),
        args_diags(rs, formals, env, n) == args_diags(os, formals, env, n),
        0 <= n <= os.len() ==> forall|i: int| 0 <= i < n ==> exp_annotated(*#[trigger] rs[i], env, *rs[i]),
    decreases os, n,
{
    if 0 < n <= os.len() {
        lemma_args_fixed(os, formals, env, rs, n - 1);
        lemma_exp_fixed(*os[n - 1], env, *rs[n - 1]);
        assert(arg_agrees(rs, formals, env, n - 1) == arg_agrees(os, formals, env, n - 1));
        assert(arg_own_diags(rs, formals, env, n - 1) == arg_own_diags(os, formals, env, n - 1));
        assert forall|i: int| 0 <= i < n implies exp_annotated(*#[trigger] rs[i], env, *rs[i]) by {
            if i < n - 1 {
            } else {
                assert(exp_annotated(*os[i], env, *rs[i]));
            }
        }
    }
}

/// A call after analysis has the type that analysis gave it.
pub proof fn lemma_call_fixed(o: CallExp, env: Env, r: CallExp)
    requires
        call_annotated(o, env, r),
    ensures
        call_result(r, env) == call_result(o, env),
        call_diags(r, env) == call_diags(o, env),
        call_annotated(r, env, r),
    decreases o, 0nat,
{
    lemma_args_fixed(o.args@, call_formals(o, env), env, r.args@, o.args@.len() as int);
}

/// Type slots are written once: when `r` is what analysis made of the
/// expression `o`, analyzing `r` again in the same environment resolves
/// the same type for every node, so that `r` is also what analysis makes
/// of `r`; and it raises the same diagnostics.
pub proof fn lemma_expression_analysis_idempotent(o: Exp, env: Env, r: Exp)
    requires
        exp_annotated(o, env, r),
    ensures
        exp_annotated(r, env, r),
        exp_slot(r, env) == unbox_slot(r.expr_type),
        exp_diags(r, env) == exp_diags(o, env),
{
    lemma_exp_fixed(o, env, r);
}

/// A statement after analysis changes the environment as it did before.
pub proof fn lemma_stmt_env_same(o: Stmt, env: Env, r: Stmt, at: Env)
    requires
        stmt_annotated(o, env, r),
    ensures
        stmt_env(r, at) == stmt_env(o, at),
{
}

/// Statements after analysis change the environment as they did before.
pub proof fn lemma_stmts_env_same(os: Seq<Box<Stmt>>, env: Env, rs: Seq<Box<Stmt>>, n: int)
    requires
        stmts_annotated(os, env, rs),
    ensures
        stmts_env(rs, env, n) == stmts_env(os, env, n),
    decreases n,
{
    if 0 < n <= os.len() {
        lemma_stmts_env_same(os, env, rs, n - 1);
        let at = stmts_env(os, env, n - 1);
        assert(stmt_annotated(*os[n - 1], at, *rs[n - 1]));
        lemma_stmt_env_same(*os[n - 1], at, *rs[n - 1], at);
    }
}

/// Analysis leaves a variable declaration after analysis as it is, and
/// raises what it raised before.
pub proof fn lemma_var_decl_fixed(o: VarDecl, env: Env, r: VarDecl)
    requires
        var_decl_annotated(o, env, r),
    ensures
        var_decl_annotated(r, env, r),
        var_decl_diags(r, env) == var_decl_diags(o, env),
{
    match o.init_val {
        Some(e) => {
            lemma_exp_fixed(*e, env, *r.init_val->0);
        },
        None => {},
    }
}

/// Analysis leaves a line statement after analysis as it is, and raises
/// what it raised before.
pub proof fn lemma_line_fixed(o: LineStmt, env: Env, r: LineStmt, ret: TypeKind)
    requires
        line_annotated(o, env, r),
    ensures
        line_annotated(r, env, r),
        line_diags(r, env, ret) == line_diags(o, env, ret),
{
    match *o.kind {
        LineStmtKind::Assign { dest, src } => {
            lemma_loc_fixed(*dest, env, *r.kind->Assign_dest);
            lemma_exp_fixed(*src, env, *r.kind->Assign_src);
        },
        LineStmtKind::PostDec { loc } => {
            lemma_loc_fixed(*loc, env, *r.kind->PostDec_loc);
        },
        LineStmtKind::PostInc { loc } => {
            lemma_loc_fixed(*loc, env, *r.kind->PostInc_loc);
        },
        LineStmtKind::Give { output } => {
            lemma_exp_fixed(*output, env, *r.kind->Give_output);
            let o2 = *r.kind->Give_output;
            match *output.kind {
                ExpKind::Loc(l) => {
                    lemma_loc_fixed(*l, env, *o2.kind->Loc_0);
                },
                _ => {},
            }
        },
        LineStmtKind::Take { recipient } => {
            lemma_loc_fixed(*recipient, env, *r.kind->Take_recipient);
        },
        LineStmtKind::Return { result } => {
            match result {
                Some(e) => {
                    lemma_exp_fixed(*e, env, *r.kind->Return_result->0);
                },
                None => {},
            }
        },
        LineStmtKind::Exit => {},
        LineStmtKind::Call(c) => {
            lemma_call_fixed(*c, env, *r.kind->Call_0);
        },
    }
}

/// Analysis leaves a statement after analysis as it is, and raises what
/// it raised before.
pub proof fn lemma_stmt_fixed(o: Stmt, env: Env, r: Stmt, ret: TypeKind)
    requires
        stmt_annotated(o, env, r),
    ensures
        stmt_annotated(r, env, r),
        stmt_diags(r, env, ret) == stmt_diags(o, env, ret),
    decreases o, 1nat,
{
    match o {
        Stmt::Block(b) => {
            lemma_block_fixed(*b, env, *r->Block_0, ret);
        },
        Stmt::Line(l) => {
            lemma_line_fixed(*l, env, *r->Line_0, ret);
        },
        Stmt::VarDecl(v) => {
            lemma_var_decl_fixed(*v, env, *r->VarDecl_0);
        },
    }
}

/// Statements after analysis raise what they raised before.
pub proof fn lemma_stmts_diags_same(
    os: Seq<Box<Stmt>>,
    env: Env,
    rs: Seq<Box<Stmt>>,
    ret: TypeKind,
    n: int,
)
    requires
        stmts_annotated(os, env, rs),
    ensures
        stmts_diags(rs, env, ret, n) == stmts_diags(os, env, ret, n),
    decreases os, n,
{
    if 0 < n <= os.len() {
        lemma_stmts_diags_same(os, env, rs, ret, n - 1);
        lemma_stmts_env_same(os, env, rs, n - 1);
        let at = stmts_env(os, env, n - 1);
        assert(stmt_annotated(*os[n - 1], at, *rs[n - 1]));
        lemma_stmt_fixed(*os[n - 1], at, *rs[n - 1], ret);
    }
}

/// Analysis leaves statements after analysis as they are.
pub proof fn lemma_stmts_fixed(os: Seq<Box<Stmt>>, env: Env, rs: Seq<Box<Stmt>>, ret: TypeKind)
    requires
        stmts_annotated(os, env, rs),
    ensures
        stmts_annotated(rs, env, rs),
        stmts_diags(rs, env, ret, os.len() as int) == stmts_diags(os, env, ret, os.len() as int),
    decreases os, os.len() + 1,
{
    assert forall|i: int| 0 <= i < rs.len() implies stmt_annotated(
        *#[trigger] rs[i],
        stmts_env(rs, env, i),
        *rs[i],
    ) by {
        lemma_stmts_env_same(os, env, rs, i);
        assert(stmt_annotated(*os[i], stmts_env(os, env, i), *rs[i]));
        lemma_stmt_fixed(*os[i], stmts_env(os, env, i), *rs[i], ret);
    }
    lemma_stmts_diags_same(os, env, rs, ret, os.len() as int);
}

/// Analysis leaves a block statement after analysis as it is, and raises
/// what it raised before.
pub proof fn lemma_block_fixed(o: BlockStmt, env: Env, r: BlockStmt, ret: TypeKind)
    requires
        block_annotated(o, env, r),
    ensures
        block_annotated(r, env, r),
        block_diags(r, env, ret) == block_diags(o, env, ret),
    decreases o, 0nat,
{
    match o {
        BlockStmt::While { cond, body } => {
            lemma_exp_fixed(*cond, env, *r->While_cond);
            lemma_stmts_fixed(body@, env.enter(), r->While_body@, ret);
        },
        BlockStmt::If { cond, body } => {
            lemma_exp_fixed(*cond, env, *r->If_cond);
            lemma_stmts_fixed(body@, env.enter(), r->If_body@, ret);
        },
        BlockStmt::IfElse { cond, true_branch, false_branch } => {
            lemma_exp_fixed(*cond, env, *r->IfElse_cond);
            lemma_stmts_fixed(true_branch@, env.enter(), r->IfElse_true_branch@, ret);
            lemma_stmts_fixed(false_branch@, env.enter(), r->IfElse_false_branch@, ret);
        },
    }
}

/// Analysis leaves a function after analysis as it is, and raises what it
/// raised before.
pub proof fn lemma_fn_fixed(o: FnDecl, env: Env, r: FnDecl)
    requires
        fn_annotated(o, env, r),
    ensures
        fn_scope(r, env) == fn_scope(o, env),
        env.with_fn(r) == env.with_fn(o),
        fn_annotated(r, env, r),
        fn_diags(r, env) == fn_diags(o, env),
{
    lemma_stmts_fixed(o.body@, fn_scope(o, env), r.body@, *o.ret.kind);
}

/// Analysis leaves a top-level declaration after analysis as it is, and
/// raises what it raised before.
pub proof fn lemma_decl_fixed(o: Decl, env: Env, r: Decl)
    requires
        decl_annotated(o, env, r),
    ensures
        decl_annotated(r, env, r),
        decl_diags(r, env) == decl_diags(o, env),
        forall|at: Env| decl_env(r, at) == decl_env(o, at),
{
    match o {
        Decl::VarDecl(v) => {
            lemma_var_decl_fixed(*v, env, *r->VarDecl_0);
        },
        Decl::FnDecl(f) => {
            lemma_fn_fixed(*f, env, *r->FnDecl_0);
        },
        Decl::ClassDecl(_) => {},
    }
}

/// The first pass registers the same names for a program after analysis as
/// it did before, and raises what it raised before.
pub proof fn lemma_register_same(o: Program, env: Env, r: Program, start: Env, n: int)
    requires
        program_annotated(o, env, r),
    ensures
        register_env(r.globals@, start, n) == register_env(o.globals@, start, n),
        register_diags(r.globals@, start, n) == register_diags(o.globals@, start, n),
    decreases n,
{
    if 0 < n <= o.globals@.len() {
        lemma_register_same(o, env, r, start, n - 1);
        let before = register_env(o.globals@, start, n - 1);
        let at = decls_env(o.globals@, registered(o, env), n - 1);
        assert(decl_annotated(*o.globals@[n - 1], at, *r.globals@[n - 1]));
        match *o.globals@[n - 1] {
            Decl::FnDecl(f) => {
                lemma_fn_fixed(*f, at, *r.globals@[n - 1]->FnDecl_0);
                assert(before.with_fn(*r.globals@[n - 1]->FnDecl_0) == before.with_fn(*f));
            },
            _ => {},
        }
    }
}

/// The second pass changes the environment for a program after analysis
/// as it did before, and raises what it raised before.
pub proof fn lemma_decls_same(o: Program, env: Env, r: Program, n: int)
    requires
        program_annotated(o, env, r),
    ensures
        decls_env(r.globals@, registered(o, env), n) == decls_env(
            o.globals@,
            registered(o, env),
            n,
        ),
        decls_diags(r.globals@, registered(o, env), n) == decls_diags(
            o.globals@,
            registered(o, env),
            n,
        ),
    decreases n,
{
    if 0 < n <= o.globals@.len() {
        lemma_decls_same(o, env, r, n - 1);
        let at = decls_env(o.globals@, registered(o, env), n - 1);
        assert(decl_annotated(*o.globals@[n - 1], at, *r.globals@[n - 1]));
        lemma_decl_fixed(*o.globals@[n - 1], at, *r.globals@[n - 1]);
    }
}

/// Analysis is idempotent: when `r` is what analysis made of the program
/// `o`, analyzing `r` again from the same environment resolves the same
/// type for every node, so that `r` is also what analysis makes of `r`;
/// it raises the same diagnostics, and it leaves the same environment.
pub proof fn lemma_analysis_idempotent(o: Program, env: Env, r: Program)
    requires
        program_annotated(o, env, r),
    ensures
        program_annotated(r, env, r),
        program_diags(r, env) == program_diags(o, env),
        program_env(r, env) == program_env(o, env),
{
    let n = o.globals@.len() as int;
    lemma_register_same(o, env, r, env, n);
    lemma_decls_same(o, env, r, n);
    assert forall|i: int| 0 <= i < r.globals@.len() implies decl_annotated(
        *#[trigger] r.globals@[i],
        decls_env(r.globals@, registered(r, env), i),
        *r.globals@[i],
    ) by {
        lemma_decls_same(o, env, r, i);
        let at = decls_env(o.globals@, registered(o, env), i);
        assert(decl_annotated(*o.globals@[i], at, *r.globals@[i]));
        lemma_decl_fixed(*o.globals@[i], at, *r.globals@[i]);
    }
}

} // verus!
