//! Laws of the jumps of three-address code: every jump goes to a label
//! that the code defines, and the exit label of a function that holds a
//! `return` is jumped to.

use vstd::prelude::*;
use crate::analysis::env::FieldSig;
use crate::assembly::ir::{Place, Quad};
use crate::assembly::labels::{
    count_leaves,
    count_nops,
    lemma_fn_mono,
    lemma_label_uniqueness,
    lemma_stmts_mono,
    lemma_targeted_concat,
    lemma_targeted_push,
    targeted,
};
use crate::assembly::three_ac::{
    args_code,
    binary_code,
    block_code,
    body_code,
    call_code,
    call_value_code,
    decls_code,
    decls_strings,
    exp_code,
    fn_code,
    getargs,
    line_code,
    program_ir,
    program_labels,
    setargs,
    stmt_code,
    stmts_code,
    unary_code,
    var_decl_code,
    Instr,
    Value,
};
use crate::parser::ast::{
    BlockStmt,
    CallExp,
    Decl,
    Exp,
    ExpKind,
    FnDecl,
    FormalDecl,
    LineStmt,
    LineStmtKind,
    Program,
    Stmt,
    TypeKind,
    VarDecl,
};

verus! {

/// The label that an instruction jumps to, if it is a jump.
pub open spec fn target_of(q: Instr) -> Option<usize> {
    match q {
        Quad::Ifz { cond, target } => Some(target),
        Quad::Goto { target } => Some(target),
        _ => None,
    }
}

/// Whether the instruction is a jump.
pub open spec fn is_jump(q: Instr) -> bool {
    target_of(q) is Some
}

/// Whether no instruction of `code` is a jump.
pub open spec fn no_jumps(code: Seq<Instr>) -> bool {
    forall|i: int| 0 <= i < code.len() ==> !is_jump(#[trigger] code[i])
}

/// Whether the label `t` is one of the labels from `lo` up to, but not
/// including, `hi`, or the label `exit`.
pub open spec fn lands(t: usize, lo: nat, hi: nat, exit: nat) -> bool {
    lo <= t < hi || t == exit
}

/// Whether every jump of `code` goes to one of the labels from `lo` up
/// to, but not including, `hi`, or to the label `exit`.
pub open spec fn jumps_within(code: Seq<Instr>, lo: nat, hi: nat, exit: nat) -> bool {
    forall|i: int|
        0 <= i < code.len() ==> (target_of(#[trigger] code[i]) matches Some(t) ==> lands(
            t,
            lo,
            hi,
            exit,
        ))
}

/// Whether a statement holds a `return`, at any depth.
pub open spec fn stmt_returns(s: Stmt) -> bool
    decreases s, 1nat,
{
    match s {
        Stmt::Block(b) => block_returns(*b),
        Stmt::Line(l) => *l.kind is Return,
        Stmt::VarDecl(_) => false,
    }
}

/// Whether one of the statements `ss[..n]` holds a `return`.
pub open spec fn stmts_return(ss: Seq<Box<Stmt>>, n: int) -> bool
    decreases ss, n,
{
    0 < n <= ss.len() && (stmts_return(ss, n - 1) || stmt_returns(*ss[n - 1]))
}

/// Whether a block statement holds a `return`.
pub open spec fn block_returns(b: BlockStmt) -> bool
    decreases b, 0nat,
{
    match b {
        BlockStmt::If { cond, body } => stmts_return(body@, body@.len() as int),
        BlockStmt::While { cond, body } => stmts_return(body@, body@.len() as int),
        BlockStmt::IfElse { cond, true_branch, false_branch } => stmts_return(
            true_branch@,
            true_branch@.len() as int,
        ) || stmts_return(false_branch@, false_branch@.len() as int),
    }
}

/// Whether the body of a function holds a `return`.
pub open spec fn fn_returns(f: FnDecl) -> bool {
    stmts_return(f.body@, f.body@.len() as int)
}

/// Code that does not jump keeps its jumps within any labels.
pub proof fn lemma_no_jumps_within(code: Seq<Instr>, lo: nat, hi: nat, exit: nat)
    requires
        no_jumps(code),
    ensures
        jumps_within(code, lo, hi, exit),
{
    assert forall|i: int| 0 <= i < code.len() implies (target_of(#[trigger] code[i]) matches Some(
        t,
    ) ==> lands(t, lo, hi, exit)) by {
        assert(!is_jump(code[i]));
    }
}

/// Two pieces of code that keep their jumps within some labels keep them
/// there together.
pub proof fn lemma_within_concat(a: Seq<Instr>, b: Seq<Instr>, lo: nat, hi: nat, exit: nat)
    requires
        jumps_within(a, lo, hi, exit),
        jumps_within(b, lo, hi, exit),
    ensures
        jumps_within(a + b, lo, hi, exit),
{
    assert forall|i: int| 0 <= i < (a + b).len() implies (target_of(#[trigger] (a + b)[i]) matches Some(
        t,
    ) ==> lands(t, lo, hi, exit)) by {
        if i < a.len() {
            assert((a + b)[i] == a[i]);
        } else {
            assert((a + b)[i] == b[i - a.len()]);
        }
    }
}

/// Code that keeps its jumps within some labels still does with one more
/// instruction that does.
pub proof fn lemma_within_push(a: Seq<Instr>, q: Instr, lo: nat, hi: nat, exit: nat)
    requires
        jumps_within(a, lo, hi, exit),
        target_of(q) matches Some(t) ==> lands(t, lo, hi, exit),
    ensures
        jumps_within(a.push(q), lo, hi, exit),
{
    assert forall|i: int| 0 <= i < a.push(q).len() implies (target_of(#[trigger] a.push(q)[i]) matches Some(
        t,
    ) ==> lands(t, lo, hi, exit)) by {
        if i < a.len() {
            assert(a.push(q)[i] == a[i]);
        }
    }
}

/// Jumps that stay within some labels stay within more labels.
pub proof fn lemma_within_widen(
    code: Seq<Instr>,
    lo: nat,
    hi: nat,
    lo2: nat,
    hi2: nat,
    exit: nat,
)
    requires
        jumps_within(code, lo, hi, exit),
        lo2 <= lo,
        hi <= hi2,
    ensures
        jumps_within(code, lo2, hi2, exit),
{
    assert forall|i: int| 0 <= i < code.len() implies (target_of(#[trigger] code[i]) matches Some(
        t,
    ) ==> lands(t, lo2, hi2, exit)) by {
        if target_of(code[i]) is Some {
            assert(lands(target_of(code[i])->Some_0, lo, hi, exit));
        }
    }
}

/// Two pieces of code that do not jump do not jump together.
pub proof fn lemma_no_jumps_concat(a: Seq<Instr>, b: Seq<Instr>)
    requires
        no_jumps(a),
        no_jumps(b),
    ensures
        no_jumps(a + b),
{
    assert forall|i: int| 0 <= i < (a + b).len() implies !is_jump(#[trigger] (a + b)[i]) by {
        if i < a.len() {
            assert((a + b)[i] == a[i]);
        } else {
            assert((a + b)[i] == b[i - a.len()]);
        }
    }
}

/// Code that does not jump still does not with one more instruction that
/// does not.
pub proof fn lemma_no_jumps_push(a: Seq<Instr>, q: Instr)
    requires
        no_jumps(a),
        !is_jump(q),
    ensures
        no_jumps(a.push(q)),
{
    assert forall|i: int| 0 <= i < a.push(q).len() implies !is_jump(#[trigger] a.push(q)[i]) by {
        if i < a.len() {
            assert(a.push(q)[i] == a[i]);
        }
    }
}

/// The handing over of arguments does not jump.
pub proof fn lemma_setargs_no_jumps(values: Seq<Value>, n: int)
    ensures
        no_jumps(setargs(values, n)),
    decreases n,
{
    if 0 < n <= values.len() {
        lemma_setargs_no_jumps(values, n - 1);
        lemma_no_jumps_push(
            setargs(values, n - 1),
            Quad::SetArg { index: n as usize, src: values[n - 1] },
        );
    }
}

/// The stores of the arguments do not jump.
pub proof fn lemma_getargs_no_jumps(args: Seq<Box<FormalDecl>>, n: int)
    ensures
        no_jumps(getargs(args, n)),
    decreases n,
{
    if 0 < n <= args.len() {
        lemma_getargs_no_jumps(args, n - 1);
        lemma_no_jumps_push(
            getargs(args, n - 1),
            Quad::GetArg {
                index: n as usize,
                dest: Place::Var(crate::analysis::env::formal_name(*args[n - 1])),
            },
        );
    }
}

/// The code of an expression does not jump.
pub proof fn lemma_exp_no_jumps(e: Exp, pool: Seq<Seq<char>>, base: nat)
    ensures
        no_jumps(exp_code(e, pool, base).code),
    decreases e, 1nat,
{
    match *e.kind {
        ExpKind::UnaryExp(u) => {
            let a = exp_code(*u.exp, pool, base);
            lemma_exp_no_jumps(*u.exp, pool, base);
            lemma_no_jumps_push(a.code, unary_code(*u, pool, base).code.last());
            assert(unary_code(*u, pool, base).code =~= a.code.push(
                unary_code(*u, pool, base).code.last(),
            ));
        },
        ExpKind::BinaryExp(b) => {
            let l = exp_code(*b.lhs, pool, base);
            let r = exp_code(*b.rhs, pool, base + l.tmps.len());
            lemma_exp_no_jumps(*b.lhs, pool, base);
            lemma_exp_no_jumps(*b.rhs, pool, base + l.tmps.len());
            lemma_no_jumps_concat(l.code, r.code);
            let whole = binary_code(*b, pool, base).code;
            lemma_no_jumps_push(l.code + r.code, whole.last());
            assert(whole =~= (l.code + r.code).push(whole.last()));
        },
        ExpKind::CallExp(c) => {
            lemma_call_no_jumps(*c, pool, base);
            let a = call_code(*c, pool, base);
            let whole = call_value_code(*c, pool, base).code;
            lemma_no_jumps_push(a.code, whole.last());
            assert(whole =~= a.code.push(whole.last()));
        },
        _ => {},
    }
}

/// The code of a list of expressions does not jump.
pub proof fn lemma_args_no_jumps(args: Seq<Box<Exp>>, pool: Seq<Seq<char>>, base: nat, n: int)
    ensures
        no_jumps(args_code(args, pool, base, n).code),
    decreases args, n,
{
    if 0 < n <= args.len() {
        let before = args_code(args, pool, base, n - 1);
        lemma_args_no_jumps(args, pool, base, n - 1);
        lemma_exp_no_jumps(*args[n - 1], pool, base + before.tmps.len());
        lemma_no_jumps_concat(
            before.code,
            exp_code(*args[n - 1], pool, base + before.tmps.len()).code,
        );
    }
}

/// The code of a call does not jump.
pub proof fn lemma_call_no_jumps(c: CallExp, pool: Seq<Seq<char>>, base: nat)
    ensures
        no_jumps(call_code(c, pool, base).code),
    decreases c, 0nat,
{
    let a = args_code(c.args@, pool, base, c.args@.len() as int);
    lemma_args_no_jumps(c.args@, pool, base, c.args@.len() as int);
    lemma_setargs_no_jumps(a.values, a.values.len() as int);
    lemma_no_jumps_concat(a.code, setargs(a.values, a.values.len() as int));
    let whole = call_code(c, pool, base).code;
    lemma_no_jumps_push(a.code + setargs(a.values, a.values.len() as int), whole.last());
    assert(whole =~= (a.code + setargs(a.values, a.values.len() as int)).push(whole.last()));
}

/// The code of a variable declaration does not jump.
pub proof fn lemma_var_decl_no_jumps(v: VarDecl, pool: Seq<Seq<char>>, base: nat)
    ensures
        no_jumps(var_decl_code(v, pool, base).code),
{
    let whole = var_decl_code(v, pool, base).code;
    match v.init_val {
        Some(e) => match *v.var_type.kind {
            TypeKind::Prim(_) => {
                lemma_exp_no_jumps(*e, pool, base);
                lemma_no_jumps_push(exp_code(*e, pool, base).code, whole.last());
                assert(whole =~= exp_code(*e, pool, base).code.push(whole.last()));
            },
            TypeKind::Class(_) => {},
        },
        None => {},
    }
}

/// The jumps of a line statement: only a `return` jumps, and it jumps to
/// the exit label.
pub proof fn lemma_line_jumps(s: LineStmt, pool: Seq<Seq<char>>, base: nat, lo: nat, exit: nat)
    requires
        exit <= usize::MAX,
    ensures
        jumps_within(line_code(s, pool, base, exit).code, lo, lo, exit),
        *s.kind is Return ==> targeted(line_code(s, pool, base, exit).code, exit as usize),
{
    let whole = line_code(s, pool, base, exit).code;
    let goto = Quad::<Seq<char>>::Goto { target: exit as usize };
    match *s.kind {
        LineStmtKind::Assign { dest, src } => {
            lemma_exp_no_jumps(*src, pool, base);
            lemma_no_jumps_push(exp_code(*src, pool, base).code, whole.last());
            assert(whole =~= exp_code(*src, pool, base).code.push(whole.last()));
            lemma_no_jumps_within(whole, lo, lo, exit);
        },
        LineStmtKind::Give { output } => {
            lemma_exp_no_jumps(*output, pool, base);
            lemma_no_jumps_push(exp_code(*output, pool, base).code, whole.last());
            assert(whole =~= exp_code(*output, pool, base).code.push(whole.last()));
            lemma_no_jumps_within(whole, lo, lo, exit);
        },
        LineStmtKind::Return { result } => {
            match result {
                Some(e) => {
                    let a = exp_code(*e, pool, base);
                    let set = Quad::SetRet { src: a.value };
                    lemma_exp_no_jumps(*e, pool, base);
                    lemma_no_jumps_push(a.code, set);
                    lemma_no_jumps_within(a.code.push(set), lo, lo, exit);
                    lemma_within_push(a.code.push(set), goto, lo, lo, exit);
                    lemma_targeted_push(a.code.push(set), goto, exit as usize);
                },
                None => {
                    assert(whole =~= Seq::<Instr>::empty().push(goto));
                    lemma_no_jumps_within(Seq::<Instr>::empty(), lo, lo, exit);
                    lemma_within_push(Seq::<Instr>::empty(), goto, lo, lo, exit);
                    lemma_targeted_push(Seq::<Instr>::empty(), goto, exit as usize);
                },
            }
        },
        LineStmtKind::Call(c) => {
            lemma_call_no_jumps(*c, pool, base);
            lemma_no_jumps_within(whole, lo, lo, exit);
        },
        _ => {
            lemma_no_jumps_within(whole, lo, lo, exit);
        },
    }
}

/// The jumps of a statement go to the labels that it takes into use or to
/// the exit label, and a statement that holds a `return` jumps to the
/// exit label.
pub proof fn lemma_stmt_jumps(s: Stmt, pool: Seq<Seq<char>>, base: nat, lbl: nat, exit: nat)
    requires
        stmt_code(s, pool, base, lbl, exit).lbl <= usize::MAX,
        exit <= usize::MAX,
    ensures
        lbl <= stmt_code(s, pool, base, lbl, exit).lbl,
        jumps_within(
            stmt_code(s, pool, base, lbl, exit).code,
            lbl,
            stmt_code(s, pool, base, lbl, exit).lbl,
            exit,
        ),
        stmt_returns(s) ==> targeted(stmt_code(s, pool, base, lbl, exit).code, exit as usize),
    decreases s, 2nat,
{
    match s {
        Stmt::Block(b) => {
            lemma_block_jumps(*b, pool, base, lbl, exit);
        },
        Stmt::Line(l) => {
            lemma_line_jumps(*l, pool, base, lbl, exit);
        },
        Stmt::VarDecl(v) => {
            lemma_var_decl_no_jumps(*v, pool, base);
            lemma_no_jumps_within(var_decl_code(*v, pool, base).code, lbl, lbl, exit);
        },
    }
}

/// The jumps of statements go to the labels that they take into use or to
/// the exit label, and statements that hold a `return` jump to the exit
/// label.
pub proof fn lemma_stmts_jumps(
    ss: Seq<Box<Stmt>>,
    pool: Seq<Seq<char>>,
    base: nat,
    lbl: nat,
    exit: nat,
    n: int,
)
    requires
        stmts_code(ss, pool, base, lbl, exit, n).lbl <= usize::MAX,
        exit <= usize::MAX,
    ensures
        lbl <= stmts_code(ss, pool, base, lbl, exit, n).lbl,
        jumps_within(
            stmts_code(ss, pool, base, lbl, exit, n).code,
            lbl,
            stmts_code(ss, pool, base, lbl, exit, n).lbl,
            exit,
        ),
        stmts_return(ss, n) ==> targeted(stmts_code(ss, pool, base, lbl, exit, n).code, exit as usize),
    decreases ss, n,
{
    if 0 < n <= ss.len() {
        let before = stmts_code(ss, pool, base, lbl, exit, n - 1);
        let s = stmt_code(*ss[n - 1], pool, base + before.tmps.len(), before.lbl, exit);
        crate::assembly::labels::lemma_stmt_mono(
            *ss[n - 1],
            pool,
            base + before.tmps.len(),
            before.lbl,
            exit,
        );
        lemma_stmts_jumps(ss, pool, base, lbl, exit, n - 1);
        lemma_stmt_jumps(*ss[n - 1], pool, base + before.tmps.len(), before.lbl, exit);
        lemma_within_widen(before.code, lbl, before.lbl, lbl, s.lbl, exit);
        lemma_within_widen(s.code, before.lbl, s.lbl, lbl, s.lbl, exit);
        lemma_within_concat(before.code, s.code, lbl, s.lbl, exit);
        lemma_targeted_concat(before.code, s.code, exit as usize);
    } else {
        lemma_no_jumps_within(Seq::<Instr>::empty(), lbl, lbl, exit);
        assert(stmts_code(ss, pool, base, lbl, exit, n).code =~= Seq::<Instr>::empty());
    }
}

/// The jumps of a block statement go to the labels that it takes into use
/// or to the exit label, and a block statement that holds a `return`
/// jumps to the exit label.
#[verifier::spinoff_prover]
pub proof fn lemma_block_jumps(b: BlockStmt, pool: Seq<Seq<char>>, base: nat, lbl: nat, exit: nat)
    requires
        block_code(b, pool, base, lbl, exit).lbl <= usize::MAX,
        exit <= usize::MAX,
    ensures
        lbl < block_code(b, pool, base, lbl, exit).lbl,
        jumps_within(
            block_code(b, pool, base, lbl, exit).code,
            lbl,
            block_code(b, pool, base, lbl, exit).lbl,
            exit,
        ),
        block_returns(b) ==> targeted(block_code(b, pool, base, lbl, exit).code, exit as usize),
    decreases b, 1nat,
{
    let x = exit as usize;
    match b {
        BlockStmt::If { cond, body } => {
            let c = exp_code(*cond, pool, base);
            let inner = body_code(body@, pool, base + c.tmps.len(), lbl + 1, exit);
            let hi = inner.lbl;
            lemma_stmts_jumps(body@, pool, base + c.tmps.len(), lbl + 1, exit, body@.len() as int);
            let jump = Quad::Ifz { cond: c.value, target: lbl as usize };
            let mark = Quad::<Seq<char>>::Label { label: lbl as usize };
            let s1 = c.code.push(jump);
            let s2 = s1 + inner.code;
            lemma_exp_no_jumps(*cond, pool, base);
            lemma_no_jumps_within(c.code, lbl, hi, exit);
            lemma_within_push(c.code, jump, lbl, hi, exit);
            lemma_within_widen(inner.code, lbl + 1, hi, lbl, hi, exit);
            lemma_within_concat(s1, inner.code, lbl, hi, exit);
            lemma_within_push(s2, mark, lbl, hi, exit);
            lemma_targeted_concat(s1, inner.code, x);
            lemma_targeted_push(s2, mark, x);
        },
        BlockStmt::While { cond, body } => {
            lemma_while_jumps(b, pool, base, lbl, exit);
        },
        BlockStmt::IfElse { cond, true_branch, false_branch } => {
            lemma_if_else_jumps(b, pool, base, lbl, exit);
        },
    }
}

/// The jumps of a `while`.
#[verifier::spinoff_prover]
pub proof fn lemma_while_jumps(b: BlockStmt, pool: Seq<Seq<char>>, base: nat, lbl: nat, exit: nat)
    requires
        b is While,
        block_code(b, pool, base, lbl, exit).lbl <= usize::MAX,
        exit <= usize::MAX,
    ensures
        lbl < block_code(b, pool, base, lbl, exit).lbl,
        jumps_within(
            block_code(b, pool, base, lbl, exit).code,
            lbl,
            block_code(b, pool, base, lbl, exit).lbl,
            exit,
        ),
        block_returns(b) ==> targeted(block_code(b, pool, base, lbl, exit).code, exit as usize),
    decreases b, 0nat,
{
    let x = exit as usize;
    match b {
        BlockStmt::While { cond, body } => {
            let c = exp_code(*cond, pool, base);
            let inner = body_code(body@, pool, base + c.tmps.len(), lbl + 2, exit);
            let hi = inner.lbl;
            lemma_stmts_jumps(body@, pool, base + c.tmps.len(), lbl + 2, exit, body@.len() as int);
            let head = Quad::<Seq<char>>::Label { label: lbl as usize };
            let jump = Quad::Ifz { cond: c.value, target: (lbl + 1) as usize };
            let back = Quad::<Seq<char>>::Goto { target: lbl as usize };
            let after = Quad::<Seq<char>>::Label { label: (lbl + 1) as usize };
            let s0 = seq![head];
            let s1 = s0 + c.code;
            let s2 = s1.push(jump);
            let s3 = s2 + inner.code;
            let s4 = s3.push(back);
            lemma_no_jumps_within(Seq::<Instr>::empty(), lbl, hi, exit);
            lemma_within_push(Seq::<Instr>::empty(), head, lbl, hi, exit);
            assert(Seq::<Instr>::empty().push(head) =~= s0);
            lemma_exp_no_jumps(*cond, pool, base);
            lemma_no_jumps_within(c.code, lbl, hi, exit);
            lemma_within_concat(s0, c.code, lbl, hi, exit);
            lemma_within_push(s1, jump, lbl, hi, exit);
            lemma_within_widen(inner.code, lbl + 2, hi, lbl, hi, exit);
            lemma_within_concat(s2, inner.code, lbl, hi, exit);
            lemma_within_push(s3, back, lbl, hi, exit);
            lemma_within_push(s4, after, lbl, hi, exit);
            lemma_targeted_concat(s2, inner.code, x);
            lemma_targeted_push(s3, back, x);
            lemma_targeted_push(s4, after, x);
        },
        _ => {},
    }
}

/// The jumps of an `if` with `else`.
#[verifier::spinoff_prover]
pub proof fn lemma_if_else_jumps(b: BlockStmt, pool: Seq<Seq<char>>, base: nat, lbl: nat, exit: nat)
    requires
        b is IfElse,
        block_code(b, pool, base, lbl, exit).lbl <= usize::MAX,
        exit <= usize::MAX,
    ensures
        lbl < block_code(b, pool, base, lbl, exit).lbl,
        jumps_within(
            block_code(b, pool, base, lbl, exit).code,
            lbl,
            block_code(b, pool, base, lbl, exit).lbl,
            exit,
        ),
        block_returns(b) ==> targeted(block_code(b, pool, base, lbl, exit).code, exit as usize),
    decreases b, 0nat,
{
    let x = exit as usize;
    match b {
        BlockStmt::IfElse { cond, true_branch, false_branch } => {
            let c = exp_code(*cond, pool, base);
            let tb = body_code(true_branch@, pool, base + c.tmps.len(), lbl + 1, exit);
            let fb = body_code(
                false_branch@,
                pool,
                base + c.tmps.len() + tb.tmps.len(),
                tb.lbl + 1,
                exit,
            );
            let hi = fb.lbl;
            lemma_stmts_mono(
                false_branch@,
                pool,
                base + c.tmps.len() + tb.tmps.len(),
                tb.lbl + 1,
                exit,
                false_branch@.len() as int,
            );
            lemma_stmts_jumps(
                true_branch@,
                pool,
                base + c.tmps.len(),
                lbl + 1,
                exit,
                true_branch@.len() as int,
            );
            lemma_stmts_jumps(
                false_branch@,
                pool,
                base + c.tmps.len() + tb.tmps.len(),
                tb.lbl + 1,
                exit,
                false_branch@.len() as int,
            );
            let jump = Quad::Ifz { cond: c.value, target: lbl as usize };
            let skip = Quad::<Seq<char>>::Goto { target: tb.lbl as usize };
            let other = Quad::<Seq<char>>::Label { label: lbl as usize };
            let after = Quad::<Seq<char>>::Label { label: tb.lbl as usize };
            let s1 = c.code.push(jump);
            let s2 = s1 + tb.code;
            let s3 = s2.push(skip);
            let s4 = s3.push(other);
            let s5 = s4 + fb.code;
            lemma_exp_no_jumps(*cond, pool, base);
            lemma_no_jumps_within(c.code, lbl, hi, exit);
            lemma_within_push(c.code, jump, lbl, hi, exit);
            lemma_within_widen(tb.code, lbl + 1, tb.lbl, lbl, hi, exit);
            lemma_within_concat(s1, tb.code, lbl, hi, exit);
            lemma_within_push(s2, skip, lbl, hi, exit);
            lemma_within_push(s3, other, lbl, hi, exit);
            lemma_within_widen(fb.code, tb.lbl + 1, hi, lbl, hi, exit);
            lemma_within_concat(s4, fb.code, lbl, hi, exit);
            lemma_within_push(s5, after, lbl, hi, exit);
            lemma_targeted_concat(s1, tb.code, x);
            lemma_targeted_push(s2, skip, x);
            lemma_targeted_push(s3, other, x);
            lemma_targeted_concat(s4, fb.code, x);
            lemma_targeted_push(s5, after, x);
        },
        _ => {},
    }
}

/// The jumps of a function go to the labels that it takes into use, of
/// which its exit label is the first; and a function that holds a
/// `return` jumps to its exit label.
pub proof fn lemma_fn_jumps(f: FnDecl, pool: Seq<Seq<char>>, lbl: nat)
    requires
        fn_code(f, pool, lbl).lbl <= usize::MAX,
    ensures
        lbl < fn_code(f, pool, lbl).lbl,
        jumps_within(fn_code(f, pool, lbl).code, lbl, fn_code(f, pool, lbl).lbl, lbl),
        fn_returns(f) ==> targeted(fn_code(f, pool, lbl).code, lbl as usize),
{
    let body = body_code(f.body@, pool, 0, lbl + 1, lbl);
    let hi = body.lbl;
    lemma_stmts_mono(f.body@, pool, 0, lbl + 1, lbl, f.body@.len() as int);
    lemma_stmts_jumps(f.body@, pool, 0, lbl + 1, lbl, f.body@.len() as int);
    let enter = Quad::Enter { name: f.id.name@ };
    let leave = Quad::Leave { label: lbl as usize, name: f.id.name@ };
    let s0 = seq![enter];
    let args = getargs(f.args@, f.args@.len() as int);
    let s1 = s0 + args;
    let s2 = s1 + body.code;
    lemma_no_jumps_within(Seq::<Instr>::empty(), lbl, hi, lbl);
    lemma_within_push(Seq::<Instr>::empty(), enter, lbl, hi, lbl);
    assert(Seq::<Instr>::empty().push(enter) =~= s0);
    lemma_getargs_no_jumps(f.args@, f.args@.len() as int);
    lemma_no_jumps_within(args, lbl, hi, lbl);
    lemma_within_concat(s0, args, lbl, hi, lbl);
    lemma_within_widen(body.code, lbl + 1, hi, lbl, hi, lbl);
    lemma_within_concat(s1, body.code, lbl, hi, lbl);
    lemma_within_push(s2, leave, lbl, hi, lbl);
    lemma_targeted_concat(s1, body.code, lbl as usize);
    lemma_targeted_push(s2, leave, lbl as usize);
}

/// Whether every jump of `code` goes to a label below `hi`.
pub open spec fn jumps_below(code: Seq<Instr>, hi: nat) -> bool {
    forall|i: int| 0 <= i < code.len() ==> (target_of(#[trigger] code[i]) matches Some(t) ==> t < hi)
}

/// The jumps of the functions of a program go to labels that the program
/// takes into use.
pub proof fn lemma_decls_jumps(
    globals: Seq<Box<Decl>>,
    pool: Seq<Seq<char>>,
    classes: Map<Seq<char>, Seq<FieldSig>>,
    n: int,
)
    requires
        decls_code(globals, pool, classes, n).lbl <= usize::MAX,
    ensures
        jumps_below(
            decls_code(globals, pool, classes, n).code,
            decls_code(globals, pool, classes, n).lbl,
        ),
    decreases n,
{
    if 0 < n <= globals.len() {
        let before = decls_code(globals, pool, classes, n - 1);
        match *globals[n - 1] {
            Decl::FnDecl(f) => {
                let c = fn_code(*f, pool, before.lbl);
                lemma_fn_mono(*f, pool, before.lbl);
                lemma_decls_jumps(globals, pool, classes, n - 1);
                lemma_fn_jumps(*f, pool, before.lbl);
                assert forall|i: int| 0 <= i < (before.code + c.code).len() implies (target_of(
                    #[trigger] (before.code + c.code)[i],
                ) matches Some(t) ==> t < c.lbl) by {
                    if i < before.code.len() {
                        assert((before.code + c.code)[i] == before.code[i]);
                    } else {
                        assert((before.code + c.code)[i] == c.code[i - before.code.len()]);
                        let q = c.code[i - before.code.len()];
                        if target_of(q) is Some {
                            assert(lands(target_of(q)->Some_0, before.lbl, c.lbl, before.lbl));
                        }
                    }
                }
            },
            _ => {
                lemma_decls_jumps(globals, pool, classes, n - 1);
            },
        }
    }
}

/// The exit label of the function that is the declaration `k` of a
/// program is jumped to if the function holds a `return`.
pub proof fn lemma_decls_exit_targeted(
    globals: Seq<Box<Decl>>,
    pool: Seq<Seq<char>>,
    classes: Map<Seq<char>, Seq<FieldSig>>,
    n: int,
    k: int,
)
    requires
        0 <= k < n <= globals.len(),
        decls_code(globals, pool, classes, n).lbl <= usize::MAX,
        *globals[k] matches Decl::FnDecl(f) && fn_returns(*f),
    ensures
        targeted(
            decls_code(globals, pool, classes, n).code,
            decls_code(globals, pool, classes, k).lbl as usize,
        ),
    decreases n,
{
    let before = decls_code(globals, pool, classes, n - 1);
    let x = decls_code(globals, pool, classes, k).lbl as usize;
    match *globals[n - 1] {
        Decl::FnDecl(f) => {
            let c = fn_code(*f, pool, before.lbl);
            lemma_fn_mono(*f, pool, before.lbl);
            if k == n - 1 {
                lemma_fn_jumps(*f, pool, before.lbl);
            } else {
                lemma_decls_exit_targeted(globals, pool, classes, n - 1, k);
            }
            lemma_targeted_concat(before.code, c.code, x);
        },
        _ => {
            lemma_decls_exit_targeted(globals, pool, classes, n - 1, k);
        },
    }
}

/// Every jump goes to a label that is defined exactly once. In the
/// three-address code of a program, the target of each `IFZ` and of each
/// `goto` is a label that the code defines exactly once, as the label of
/// a control-flow construct or as the exit label of a function.
pub proof fn lemma_jump_targets_defined(p: Program, classes: Map<Seq<char>, Seq<FieldSig>>, i: int)
    requires
        program_labels(p, classes) <= usize::MAX,
        0 <= i < program_ir(p, classes).code.len(),
        is_jump(program_ir(p, classes).code[i]),
    ensures
        count_nops(program_ir(p, classes).code, target_of(program_ir(p, classes).code[i])->Some_0)
            + count_leaves(
            program_ir(p, classes).code,
            target_of(program_ir(p, classes).code[i])->Some_0,
        ) == 1,
{
    let n = p.globals@.len() as int;
    let t = target_of(program_ir(p, classes).code[i])->Some_0;
    lemma_decls_jumps(p.globals@, decls_strings(p.globals@, n), classes, n);
    lemma_label_uniqueness(p, classes, t);
}

/// The exit label of a function is jumped to when the function holds a
/// `return`. In the three-address code of a program, the exit label of
/// the function that is the declaration `k`, which is the first label
/// unused before the function, is the target of at least one jump if a
/// `return`, with or without a value, stands anywhere in the body of the
/// function.
pub proof fn lemma_exit_label_targeted(p: Program, classes: Map<Seq<char>, Seq<FieldSig>>, k: int)
    requires
        program_labels(p, classes) <= usize::MAX,
        0 <= k < p.globals@.len(),
        *p.globals@[k] matches Decl::FnDecl(f) && fn_returns(*f),
    ensures
        targeted(
            program_ir(p, classes).code,
            decls_code(
                p.globals@,
                decls_strings(p.globals@, p.globals@.len() as int),
                classes,
                k,
            ).lbl as usize,
        ),
{
    let n = p.globals@.len() as int;
    lemma_decls_exit_targeted(p.globals@, decls_strings(p.globals@, n), classes, n, k);
}

} // verus!
