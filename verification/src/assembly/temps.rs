//! Laws of the temporaries of three-address code: each is written by
//! exactly one instruction.

use vstd::prelude::*;
use crate::assembly::ir::{Place, Quad};
use crate::assembly::three_ac::{
    args_code,
    binary_code,
    block_code,
    body_code,
    call_code,
    exp_code,
    fn_code,
    getargs,
    line_code,
    setargs,
    stmt_code,
    stmts_code,
    tmp,
    unary_code,
    var_decl_code,
    Instr,
    Value,
};
use crate::parser::ast::{
    BinaryExp,
    BlockStmt,
    CallExp,
    Exp,
    ExpKind,
    FnDecl,
    FormalDecl,
    LineStmt,
    LineStmtKind,
    Stmt,
    TypeKind,
    UnaryExp,
    VarDecl,
};

verus! {

/// The place that an instruction writes, if it writes one.
pub open spec fn written(q: Instr) -> Option<Place<Seq<char>>> {
    match q {
        Quad::Assign { dest, src } => Some(dest),
        Quad::Unary { dest, op, src } => Some(dest),
        Quad::Binary { dest, lhs, op, rhs } => Some(dest),
        Quad::Read { dest } => Some(dest),
        Quad::GetArg { index, dest } => Some(dest),
        Quad::GetRet { dest } => Some(dest),
        _ => None,
    }
}

/// Whether the instruction writes the temporary `t`.
pub open spec fn writes_tmp(q: Instr, t: usize) -> bool {
    written(q) == Some(Place::<Seq<char>>::Tmp(t))
}

/// How many instructions of `code` write the temporary `t`.
pub open spec fn count_writes(code: Seq<Instr>, t: usize) -> nat
    decreases code.len(),
{
    if code.len() == 0 {
        0
    } else {
        count_writes(code.drop_last(), t) + (if writes_tmp(code.last(), t) {
            1nat
        } else {
            0nat
        })
    }
}

/// What holds of the temporary `t` in code that introduces the `n`
/// temporaries from `base` on: exactly one instruction writes `t` if it is
/// one of them, and none otherwise.
pub open spec fn tmps_ok(code: Seq<Instr>, base: nat, n: nat, t: usize) -> bool {
    count_writes(code, t) == (if base <= t < base + n {
        1nat
    } else {
        0nat
    })
}

/// One more instruction adds its own write to the count.
pub proof fn lemma_writes_push(code: Seq<Instr>, q: Instr, t: usize)
    ensures
        count_writes(code.push(q), t) == count_writes(code, t) + (if writes_tmp(q, t) {
            1nat
        } else {
            0nat
        }),
{
    assert(code.push(q).drop_last() =~= code);
}

/// The writes of two pieces of code add up.
pub proof fn lemma_writes_concat(a: Seq<Instr>, b: Seq<Instr>, t: usize)
    ensures
        count_writes(a + b, t) == count_writes(a, t) + count_writes(b, t),
    decreases b.len(),
{
    if b.len() == 0 {
        assert(a + b =~= a);
    } else {
        lemma_writes_concat(a, b.drop_last(), t);
        assert((a + b).drop_last() =~= a + b.drop_last());
        assert((a + b).last() == b.last());
    }
}

/// Two pieces of code in order for adjoining ranges of temporaries are,
/// one after the other, in order for the whole range.
pub proof fn lemma_tmps_concat(a: Seq<Instr>, b: Seq<Instr>, base: nat, n: nat, m: nat, t: usize)
    requires
        tmps_ok(a, base, n, t),
        tmps_ok(b, base + n, m, t),
    ensures
        tmps_ok(a + b, base, n + m, t),
{
    lemma_writes_concat(a, b, t);
}

/// The handing over of arguments writes no temporary.
pub proof fn lemma_setargs_writes(values: Seq<Value>, n: int, t: usize)
    ensures
        count_writes(setargs(values, n), t) == 0,
    decreases n,
{
    if 0 < n <= values.len() {
        lemma_setargs_writes(values, n - 1, t);
        lemma_writes_push(
            setargs(values, n - 1),
            Quad::SetArg { index: n as usize, src: values[n - 1] },
            t,
        );
    }
}

/// The stores of the arguments write no temporary.
pub proof fn lemma_getargs_writes(args: Seq<Box<FormalDecl>>, n: int, t: usize)
    ensures
        count_writes(getargs(args, n), t) == 0,
    decreases n,
{
    if 0 < n <= args.len() {
        lemma_getargs_writes(args, n - 1, t);
        lemma_writes_push(
            getargs(args, n - 1),
            Quad::GetArg {
                index: n as usize,
                dest: Place::Var(crate::analysis::env::formal_name(*args[n - 1])),
            },
            t,
        );
    }
}

/// Each temporary that an expression introduces is written by exactly one
/// of its instructions, and they write no other temporary.
pub proof fn lemma_exp_tmps(e: Exp, pool: Seq<Seq<char>>, base: nat, t: usize)
    requires
        base + exp_code(e, pool, base).tmps.len() <= usize::MAX,
    ensures
        tmps_ok(exp_code(e, pool, base).code, base, exp_code(e, pool, base).tmps.len(), t),
    decreases e, 1nat,
{
    match *e.kind {
        ExpKind::UnaryExp(u) => {
            lemma_unary_tmps(*u, pool, base, t);
        },
        ExpKind::BinaryExp(b) => {
            lemma_binary_tmps(*b, pool, base, t);
        },
        ExpKind::CallExp(c) => {
            let a = call_code(*c, pool, base);
            lemma_call_tmps(*c, pool, base, t);
            lemma_writes_push(a.code, Quad::GetRet { dest: tmp(base + a.tmps.len()) }, t);
        },
        _ => {},
    }
}

/// The temporaries of a unary operation are each written once.
pub proof fn lemma_unary_tmps(u: UnaryExp, pool: Seq<Seq<char>>, base: nat, t: usize)
    requires
        base + unary_code(u, pool, base).tmps.len() <= usize::MAX,
    ensures
        tmps_ok(unary_code(u, pool, base).code, base, unary_code(u, pool, base).tmps.len(), t),
    decreases u, 0nat,
{
    let a = exp_code(*u.exp, pool, base);
    lemma_exp_tmps(*u.exp, pool, base, t);
    lemma_writes_push(
        a.code,
        Quad::Unary { dest: tmp(base + a.tmps.len()), op: *u.kind, src: a.value },
        t,
    );
}

/// The temporaries of a binary operation are each written once.
pub proof fn lemma_binary_tmps(b: BinaryExp, pool: Seq<Seq<char>>, base: nat, t: usize)
    requires
        base + binary_code(b, pool, base).tmps.len() <= usize::MAX,
    ensures
        tmps_ok(binary_code(b, pool, base).code, base, binary_code(b, pool, base).tmps.len(), t),
    decreases b, 0nat,
{
    let l = exp_code(*b.lhs, pool, base);
    let r = exp_code(*b.rhs, pool, base + l.tmps.len());
    lemma_exp_tmps(*b.lhs, pool, base, t);
    lemma_exp_tmps(*b.rhs, pool, base + l.tmps.len(), t);
    lemma_tmps_concat(l.code, r.code, base, l.tmps.len(), r.tmps.len(), t);
    lemma_writes_push(
        l.code + r.code,
        Quad::Binary {
            dest: tmp(base + l.tmps.len() + r.tmps.len()),
            lhs: l.value,
            op: *b.kind,
            rhs: r.value,
        },
        t,
    );
}

/// The temporaries of a list of expressions are each written once.
pub proof fn lemma_args_tmps(args: Seq<Box<Exp>>, pool: Seq<Seq<char>>, base: nat, n: int, t: usize)
    requires
        base + args_code(args, pool, base, n).tmps.len() <= usize::MAX,
    ensures
        tmps_ok(args_code(args, pool, base, n).code, base, args_code(args, pool, base, n).tmps.len(), t),
    decreases args, n,
{
    if 0 < n <= args.len() {
        let before = args_code(args, pool, base, n - 1);
        let a = exp_code(*args[n - 1], pool, base + before.tmps.len());
        lemma_args_tmps(args, pool, base, n - 1, t);
        lemma_exp_tmps(*args[n - 1], pool, base + before.tmps.len(), t);
        lemma_tmps_concat(before.code, a.code, base, before.tmps.len(), a.tmps.len(), t);
    }
}

/// The temporaries of a call are each written once.
pub proof fn lemma_call_tmps(c: CallExp, pool: Seq<Seq<char>>, base: nat, t: usize)
    requires
        base + call_code(c, pool, base).tmps.len() <= usize::MAX,
    ensures
        tmps_ok(call_code(c, pool, base).code, base, call_code(c, pool, base).tmps.len(), t),
    decreases c, 0nat,
{
    let a = args_code(c.args@, pool, base, c.args@.len() as int);
    let s = setargs(a.values, a.values.len() as int);
    lemma_args_tmps(c.args@, pool, base, c.args@.len() as int, t);
    lemma_setargs_writes(a.values, a.values.len() as int, t);
    lemma_writes_concat(a.code, s, t);
    lemma_writes_push(a.code + s, Quad::Call { name: c.name.spec_name() }, t);
}

/// The temporaries of a line statement are each written once.
pub proof fn lemma_line_tmps(s: LineStmt, pool: Seq<Seq<char>>, base: nat, exit: nat, t: usize)
    requires
        base + line_code(s, pool, base, exit).tmps.len() <= usize::MAX,
    ensures
        tmps_ok(
            line_code(s, pool, base, exit).code,
            base,
            line_code(s, pool, base, exit).tmps.len(),
            t,
        ),
{
    let whole = line_code(s, pool, base, exit).code;
    match *s.kind {
        LineStmtKind::Assign { dest, src } => {
            lemma_exp_tmps(*src, pool, base, t);
            lemma_writes_push(exp_code(*src, pool, base).code, whole.last(), t);
            assert(whole =~= exp_code(*src, pool, base).code.push(whole.last()));
        },
        LineStmtKind::PostDec { loc } => {
            lemma_writes_push(Seq::<Instr>::empty(), whole.last(), t);
            assert(whole =~= Seq::<Instr>::empty().push(whole.last()));
        },
        LineStmtKind::PostInc { loc } => {
            lemma_writes_push(Seq::<Instr>::empty(), whole.last(), t);
            assert(whole =~= Seq::<Instr>::empty().push(whole.last()));
        },
        LineStmtKind::Give { output } => {
            lemma_exp_tmps(*output, pool, base, t);
            lemma_writes_push(exp_code(*output, pool, base).code, whole.last(), t);
            assert(whole =~= exp_code(*output, pool, base).code.push(whole.last()));
        },
        LineStmtKind::Take { recipient } => {
            lemma_writes_push(Seq::<Instr>::empty(), whole.last(), t);
            assert(whole =~= Seq::<Instr>::empty().push(whole.last()));
        },
        LineStmtKind::Return { result } => {
            match result {
                Some(e) => {
                    let a = exp_code(*e, pool, base);
                    lemma_exp_tmps(*e, pool, base, t);
                    lemma_writes_push(a.code, Quad::SetRet { src: a.value }, t);
                    lemma_writes_push(
                        a.code.push(Quad::SetRet { src: a.value }),
                        Quad::Goto { target: exit as usize },
                        t,
                    );
                },
                None => {
                    lemma_writes_push(Seq::<Instr>::empty(), whole.last(), t);
                    assert(whole =~= Seq::<Instr>::empty().push(whole.last()));
                },
            }
        },
        LineStmtKind::Exit => {
            lemma_writes_push(Seq::<Instr>::empty(), whole.last(), t);
            assert(whole =~= Seq::<Instr>::empty().push(whole.last()));
        },
        LineStmtKind::Call(c) => {
            lemma_call_tmps(*c, pool, base, t);
        },
    }
}

/// The temporaries of a variable declaration are each written once.
pub proof fn lemma_var_decl_tmps(v: VarDecl, pool: Seq<Seq<char>>, base: nat, t: usize)
    requires
        base + var_decl_code(v, pool, base).tmps.len() <= usize::MAX,
    ensures
        tmps_ok(var_decl_code(v, pool, base).code, base, var_decl_code(v, pool, base).tmps.len(), t),
{
    let whole = var_decl_code(v, pool, base).code;
    match v.init_val {
        Some(e) => match *v.var_type.kind {
            TypeKind::Prim(_) => {
                lemma_exp_tmps(*e, pool, base, t);
                lemma_writes_push(exp_code(*e, pool, base).code, whole.last(), t);
                assert(whole =~= exp_code(*e, pool, base).code.push(whole.last()));
            },
            TypeKind::Class(_) => {},
        },
        None => {},
    }
}

/// The temporaries of a statement are each written once.
pub proof fn lemma_stmt_tmps(
    s: Stmt,
    pool: Seq<Seq<char>>,
    base: nat,
    lbl: nat,
    exit: nat,
    t: usize,
)
    requires
        base + stmt_code(s, pool, base, lbl, exit).tmps.len() <= usize::MAX,
    ensures
        tmps_ok(
            stmt_code(s, pool, base, lbl, exit).code,
            base,
            stmt_code(s, pool, base, lbl, exit).tmps.len(),
            t,
        ),
    decreases s, 2nat,
{
    match s {
        Stmt::Block(b) => {
            lemma_block_tmps(*b, pool, base, lbl, exit, t);
        },
        Stmt::Line(l) => {
            lemma_line_tmps(*l, pool, base, exit, t);
        },
        Stmt::VarDecl(v) => {
            lemma_var_decl_tmps(*v, pool, base, t);
        },
    }
}

/// The temporaries of statements are each written once.
pub proof fn lemma_stmts_tmps(
    ss: Seq<Box<Stmt>>,
    pool: Seq<Seq<char>>,
    base: nat,
    lbl: nat,
    exit: nat,
    n: int,
    t: usize,
)
    requires
        base + stmts_code(ss, pool, base, lbl, exit, n).tmps.len() <= usize::MAX,
    ensures
        tmps_ok(
            stmts_code(ss, pool, base, lbl, exit, n).code,
            base,
            stmts_code(ss, pool, base, lbl, exit, n).tmps.len(),
            t,
        ),
    decreases ss, n,
{
    if 0 < n <= ss.len() {
        let before = stmts_code(ss, pool, base, lbl, exit, n - 1);
        let s = stmt_code(*ss[n - 1], pool, base + before.tmps.len(), before.lbl, exit);
        lemma_stmts_tmps(ss, pool, base, lbl, exit, n - 1, t);
        lemma_stmt_tmps(*ss[n - 1], pool, base + before.tmps.len(), before.lbl, exit, t);
        lemma_tmps_concat(before.code, s.code, base, before.tmps.len(), s.tmps.len(), t);
    }
}

/// The temporaries of a block statement are each written once.
#[verifier::rlimit(80)]
#[verifier::spinoff_prover]
pub proof fn lemma_block_tmps(
    b: BlockStmt,
    pool: Seq<Seq<char>>,
    base: nat,
    lbl: nat,
    exit: nat,
    t: usize,
)
    requires
        base + block_code(b, pool, base, lbl, exit).tmps.len() <= usize::MAX,
    ensures
        tmps_ok(
            block_code(b, pool, base, lbl, exit).code,
            base,
            block_code(b, pool, base, lbl, exit).tmps.len(),
            t,
        ),
    decreases b, 1nat,
{
    match b {
        BlockStmt::If { cond, body } => {
            let c = exp_code(*cond, pool, base);
            let inner = body_code(body@, pool, base + c.tmps.len(), lbl + 1, exit);
            lemma_exp_tmps(*cond, pool, base, t);
            lemma_stmts_tmps(body@, pool, base + c.tmps.len(), lbl + 1, exit, body@.len() as int, t);
            let jump = Quad::Ifz { cond: c.value, target: lbl as usize };
            let s1 = c.code.push(jump);
            lemma_writes_push(c.code, jump, t);
            lemma_writes_concat(s1, inner.code, t);
            lemma_writes_push(s1 + inner.code, Quad::Label { label: lbl as usize }, t);
        },
        BlockStmt::While { cond, body } => {
            let c = exp_code(*cond, pool, base);
            let inner = body_code(body@, pool, base + c.tmps.len(), lbl + 2, exit);
            lemma_exp_tmps(*cond, pool, base, t);
            lemma_stmts_tmps(body@, pool, base + c.tmps.len(), lbl + 2, exit, body@.len() as int, t);
            let head = Quad::<Seq<char>>::Label { label: lbl as usize };
            let jump = Quad::Ifz { cond: c.value, target: (lbl + 1) as usize };
            let s0 = seq![head];
            let s1 = s0 + c.code;
            let s2 = s1.push(jump);
            let s3 = s2 + inner.code;
            let s4 = s3.push(Quad::Goto { target: lbl as usize });
            lemma_writes_push(Seq::<Instr>::empty(), head, t);
            assert(Seq::<Instr>::empty().push(head) =~= s0);
            lemma_writes_concat(s0, c.code, t);
            lemma_writes_push(s1, jump, t);
            lemma_writes_concat(s2, inner.code, t);
            lemma_writes_push(s3, Quad::Goto { target: lbl as usize }, t);
            lemma_writes_push(s4, Quad::Label { label: (lbl + 1) as usize }, t);
        },
        BlockStmt::IfElse { cond, true_branch, false_branch } => {
            lemma_if_else_tmps(b, pool, base, lbl, exit, t);
        },
    }
}

/// The temporaries of an `if` with `else` are each written once.
#[verifier::rlimit(80)]
#[verifier::spinoff_prover]
pub proof fn lemma_if_else_tmps(
    b: BlockStmt,
    pool: Seq<Seq<char>>,
    base: nat,
    lbl: nat,
    exit: nat,
    t: usize,
)
    requires
        b is IfElse,
        base + block_code(b, pool, base, lbl, exit).tmps.len() <= usize::MAX,
    ensures
        tmps_ok(
            block_code(b, pool, base, lbl, exit).code,
            base,
            block_code(b, pool, base, lbl, exit).tmps.len(),
            t,
        ),
    decreases b, 0nat,
{
    match b {
        BlockStmt::IfElse { cond, true_branch, false_branch } => {
            let c = exp_code(*cond, pool, base);
            let tb = body_code(true_branch@, pool, base + c.tmps.len(), lbl + 1, exit);
            let fb = body_code(
                false_branch@,
                pool,
                base + c.tmps.len() + tb.tmps.len(),
                tb.lbl + 1,
                exit,
            );
            lemma_exp_tmps(*cond, pool, base, t);
            lemma_stmts_tmps(
                true_branch@,
                pool,
                base + c.tmps.len(),
                lbl + 1,
                exit,
                true_branch@.len() as int,
                t,
            );
            lemma_stmts_tmps(
                false_branch@,
                pool,
                base + c.tmps.len() + tb.tmps.len(),
                tb.lbl + 1,
                exit,
                false_branch@.len() as int,
                t,
            );
            let jump = Quad::Ifz { cond: c.value, target: lbl as usize };
            let skip = Quad::<Seq<char>>::Goto { target: tb.lbl as usize };
            let other = Quad::<Seq<char>>::Label { label: lbl as usize };
            let s1 = c.code.push(jump);
            let s2 = s1 + tb.code;
            let s3 = s2.push(skip);
            let s4 = s3.push(other);
            let s5 = s4 + fb.code;
            lemma_writes_push(c.code, jump, t);
            lemma_writes_concat(s1, tb.code, t);
            lemma_writes_push(s2, skip, t);
            lemma_writes_push(s3, other, t);
            lemma_writes_concat(s4, fb.code, t);
            lemma_writes_push(s5, Quad::Label { label: tb.lbl as usize }, t);
        },
        _ => {},
    }
}

/// Temporaries are fresh: in the code of a function, each of its
/// temporaries is written by exactly one instruction, and no instruction
/// writes a temporary that is not one of them. A temporary is never a
/// named variable: the two are different kinds of place.
pub proof fn lemma_temporaries_fresh(f: FnDecl, pool: Seq<Seq<char>>, lbl: nat, t: usize)
    requires
        fn_code(f, pool, lbl).tmps.len() <= usize::MAX,
    ensures
        count_writes(fn_code(f, pool, lbl).code, t) == (if t < fn_code(f, pool, lbl).tmps.len() {
            1nat
        } else {
            0nat
        }),
{
    let body = body_code(f.body@, pool, 0, lbl + 1, lbl);
    lemma_stmts_tmps(f.body@, pool, 0, lbl + 1, lbl, f.body@.len() as int, t);
    let enter = Quad::Enter { name: f.id.name@ };
    let s0 = seq![enter];
    let args = getargs(f.args@, f.args@.len() as int);
    let s1 = s0 + args;
    let s2 = s1 + body.code;
    lemma_writes_push(Seq::<Instr>::empty(), enter, t);
    assert(Seq::<Instr>::empty().push(enter) =~= s0);
    lemma_getargs_writes(f.args@, f.args@.len() as int, t);
    lemma_writes_concat(s0, args, t);
    lemma_writes_concat(s1, body.code, t);
    lemma_writes_push(s2, Quad::Leave { label: lbl as usize, name: f.id.name@ }, t);
}

} // verus!
