//! Laws of the labels of three-address code: each is defined once, and
//! each label of a control-flow construct is jumped to.

use vstd::prelude::*;
use vstd::string::*;
use crate::analysis::env::FieldSig;
use crate::assembly::ir::{Place, Quad};
use crate::assembly::three_ac::{
    args_code,
    binary_code,
    block_code,
    body_code,
    call_code,
    call_value_code,
    decls_code,
    exp_code,
    fn_code,
    getargs,
    line_code,
    setargs,
    stmt_code,
    stmts_code,
    unary_code,
    var_decl_code,
    Instr,
    Value,
};
use crate::parser::ast::{
    BinaryExp,
    BlockStmt,
    CallExp,
    Decl,
    Exp,
    ExpKind,
    FnDecl,
    FormalDecl,
    LineStmt,
    LineStmtKind,
    Stmt,
    TypeKind,
    UnaryExp,
    VarDecl,
};

verus! {

/// Whether the instruction defines the label `x` of a control-flow
/// construct: `lbl_x: nop`.
pub open spec fn is_nop(q: Instr, x: usize) -> bool {
    q matches Quad::Label { label } && label == x
}

/// Whether the instruction defines the exit label `x` of a function:
/// `lbl_x: leave f`.
pub open spec fn is_leave(q: Instr, x: usize) -> bool {
    q matches Quad::Leave { label, name } && label == x
}

/// Whether the instruction jumps to the label `x`.
pub open spec fn jumps_to(q: Instr, x: usize) -> bool {
    (q matches Quad::Ifz { cond, target } && target == x) || (q matches Quad::Goto { target }
        && target == x)
}

/// Whether the instruction defines a label.
pub open spec fn defines(q: Instr) -> bool {
    q is Label || q is Leave
}

/// How often `code` defines the label `x` as that of a control-flow
/// construct.
pub open spec fn count_nops(code: Seq<Instr>, x: usize) -> nat
    decreases code.len(),
{
    if code.len() == 0 {
        0
    } else {
        count_nops(code.drop_last(), x) + (if is_nop(code.last(), x) {
            1nat
        } else {
            0nat
        })
    }
}

/// How often `code` defines the label `x` as the exit label of a function.
pub open spec fn count_leaves(code: Seq<Instr>, x: usize) -> nat
    decreases code.len(),
{
    if code.len() == 0 {
        0
    } else {
        count_leaves(code.drop_last(), x) + (if is_leave(code.last(), x) {
            1nat
        } else {
            0nat
        })
    }
}

/// Whether some instruction of `code` jumps to the label `x`.
pub open spec fn targeted(code: Seq<Instr>, x: usize) -> bool {
    exists|i: int| 0 <= i < code.len() && jumps_to(#[trigger] code[i], x)
}

/// Whether no instruction of `code` defines a label.
pub open spec fn no_defs(code: Seq<Instr>) -> bool {
    forall|i: int| 0 <= i < code.len() ==> !defines(#[trigger] code[i])
}

/// One more instruction adds its own definition to the count.
pub proof fn lemma_count_push(code: Seq<Instr>, q: Instr, x: usize)
    ensures
        count_nops(code.push(q), x) == count_nops(code, x) + (if is_nop(q, x) {
            1nat
        } else {
            0nat
        }),
        count_leaves(code.push(q), x) == count_leaves(code, x) + (if is_leave(q, x) {
            1nat
        } else {
            0nat
        }),
{
    assert(code.push(q).drop_last() =~= code);
}

/// The definitions of two pieces of code add up.
pub proof fn lemma_count_concat(a: Seq<Instr>, b: Seq<Instr>, x: usize)
    ensures
        count_nops(a + b, x) == count_nops(a, x) + count_nops(b, x),
        count_leaves(a + b, x) == count_leaves(a, x) + count_leaves(b, x),
    decreases b.len(),
{
    if b.len() == 0 {
        assert(a + b =~= a);
    } else {
        lemma_count_concat(a, b.drop_last(), x);
        assert((a + b).drop_last() =~= a + b.drop_last());
        assert((a + b).last() == b.last());
    }
}

/// Code that defines no label defines none of them at all.
pub proof fn lemma_no_defs_count(code: Seq<Instr>, x: usize)
    requires
        no_defs(code),
    ensures
        count_nops(code, x) == 0,
        count_leaves(code, x) == 0,
    decreases code.len(),
{
    if code.len() > 0 {
        assert(!defines(code[code.len() - 1]));
        assert forall|i: int| 0 <= i < code.drop_last().len() implies !defines(
            #[trigger] code.drop_last()[i],
        ) by {
            assert(code.drop_last()[i] == code[i]);
        }
        lemma_no_defs_count(code.drop_last(), x);
    }
}

/// A jump in either piece of code is a jump in the two together.
pub proof fn lemma_targeted_concat(a: Seq<Instr>, b: Seq<Instr>, x: usize)
    ensures
        targeted(a, x) ==> targeted(a + b, x),
        targeted(b, x) ==> targeted(a + b, x),
{
    if targeted(a, x) {
        let i = choose|i: int| 0 <= i < a.len() && jumps_to(#[trigger] a[i], x);
        assert((a + b)[i] == a[i]);
    }
    if targeted(b, x) {
        let i = choose|i: int| 0 <= i < b.len() && jumps_to(#[trigger] b[i], x);
        assert((a + b)[a.len() + i] == b[i]);
    }
}

/// A jump stays a jump when an instruction is added, and an added jump is
/// one.
pub proof fn lemma_targeted_push(a: Seq<Instr>, q: Instr, x: usize)
    ensures
        targeted(a, x) ==> targeted(a.push(q), x),
        jumps_to(q, x) ==> targeted(a.push(q), x),
{
    if targeted(a, x) {
        let i = choose|i: int| 0 <= i < a.len() && jumps_to(#[trigger] a[i], x);
        assert(a.push(q)[i] == a[i]);
    }
    if jumps_to(q, x) {
        assert(a.push(q)[a.len() as int] == q);
    }
}

/// Two pieces of code that define no label define none together.
pub proof fn lemma_no_defs_concat(a: Seq<Instr>, b: Seq<Instr>)
    requires
        no_defs(a),
        no_defs(b),
    ensures
        no_defs(a + b),
{
    assert forall|i: int| 0 <= i < (a + b).len() implies !defines(#[trigger] (a + b)[i]) by {
        if i < a.len() {
            assert((a + b)[i] == a[i]);
        } else {
            assert((a + b)[i] == b[i - a.len()]);
        }
    }
}

/// Code that defines no label still defines none with one more instruction
/// that defines none.
pub proof fn lemma_no_defs_push(a: Seq<Instr>, q: Instr)
    requires
        no_defs(a),
        !defines(q),
    ensures
        no_defs(a.push(q)),
{
    assert forall|i: int| 0 <= i < a.push(q).len() implies !defines(#[trigger] a.push(q)[i]) by {
        if i < a.len() {
            assert(a.push(q)[i] == a[i]);
        }
    }
}

/// The handing over of arguments defines no label.
pub proof fn lemma_setargs_no_defs(values: Seq<Value>, n: int)
    ensures
        no_defs(setargs(values, n)),
    decreases n,
{
    if 0 < n <= values.len() {
        lemma_setargs_no_defs(values, n - 1);
        lemma_no_defs_push(
            setargs(values, n - 1),
            Quad::SetArg { index: n as usize, src: values[n - 1] },
        );
    }
}

/// The stores of the arguments define no label.
pub proof fn lemma_getargs_no_defs(args: Seq<Box<FormalDecl>>, n: int)
    ensures
        no_defs(getargs(args, n)),
    decreases n,
{
    if 0 < n <= args.len() {
        lemma_getargs_no_defs(args, n - 1);
        lemma_no_defs_push(
            getargs(args, n - 1),
            Quad::GetArg {
                index: n as usize,
                dest: Place::Var(crate::analysis::env::formal_name(*args[n - 1])),
            },
        );
    }
}

/// The code of an expression defines no label.
pub proof fn lemma_exp_no_defs(e: Exp, pool: Seq<Seq<char>>, base: nat)
    ensures
        no_defs(exp_code(e, pool, base).code),
    decreases e, 1nat,
{
    match *e.kind {
        ExpKind::UnaryExp(u) => {
            let a = exp_code(*u.exp, pool, base);
            lemma_exp_no_defs(*u.exp, pool, base);
            lemma_no_defs_push(a.code, unary_code(*u, pool, base).code.last());
            assert(unary_code(*u, pool, base).code =~= a.code.push(
                unary_code(*u, pool, base).code.last(),
            ));
        },
        ExpKind::BinaryExp(b) => {
            let l = exp_code(*b.lhs, pool, base);
            let r = exp_code(*b.rhs, pool, base + l.tmps.len());
            lemma_exp_no_defs(*b.lhs, pool, base);
            lemma_exp_no_defs(*b.rhs, pool, base + l.tmps.len());
            lemma_no_defs_concat(l.code, r.code);
            let whole = binary_code(*b, pool, base).code;
            lemma_no_defs_push(l.code + r.code, whole.last());
            assert(whole =~= (l.code + r.code).push(whole.last()));
        },
        ExpKind::CallExp(c) => {
            lemma_call_no_defs(*c, pool, base);
            let a = call_code(*c, pool, base);
            let whole = call_value_code(*c, pool, base).code;
            lemma_no_defs_push(a.code, whole.last());
            assert(whole =~= a.code.push(whole.last()));
        },
        _ => {},
    }
}

/// The code of a list of expressions defines no label.
pub proof fn lemma_args_no_defs(args: Seq<Box<Exp>>, pool: Seq<Seq<char>>, base: nat, n: int)
    ensures
        no_defs(args_code(args, pool, base, n).code),
    decreases args, n,
{
    if 0 < n <= args.len() {
        let before = args_code(args, pool, base, n - 1);
        lemma_args_no_defs(args, pool, base, n - 1);
        lemma_exp_no_defs(*args[n - 1], pool, base + before.tmps.len());
        lemma_no_defs_concat(
            before.code,
            exp_code(*args[n - 1], pool, base + before.tmps.len()).code,
        );
    }
}

/// The code of a call defines no label.
pub proof fn lemma_call_no_defs(c: CallExp, pool: Seq<Seq<char>>, base: nat)
    ensures
        no_defs(call_code(c, pool, base).code),
    decreases c, 0nat,
{
    let a = args_code(c.args@, pool, base, c.args@.len() as int);
    lemma_args_no_defs(c.args@, pool, base, c.args@.len() as int);
    lemma_setargs_no_defs(a.values, a.values.len() as int);
    lemma_no_defs_concat(a.code, setargs(a.values, a.values.len() as int));
    let whole = call_code(c, pool, base).code;
    lemma_no_defs_push(a.code + setargs(a.values, a.values.len() as int), whole.last());
    assert(whole =~= (a.code + setargs(a.values, a.values.len() as int)).push(whole.last()));
}

/// The code of a line statement defines no label.
pub proof fn lemma_line_no_defs(s: LineStmt, pool: Seq<Seq<char>>, base: nat, exit: nat)
    ensures
        no_defs(line_code(s, pool, base, exit).code),
{
    let whole = line_code(s, pool, base, exit).code;
    match *s.kind {
        LineStmtKind::Assign { dest, src } => {
            lemma_exp_no_defs(*src, pool, base);
            lemma_no_defs_push(exp_code(*src, pool, base).code, whole.last());
            assert(whole =~= exp_code(*src, pool, base).code.push(whole.last()));
        },
        LineStmtKind::Give { output } => {
            lemma_exp_no_defs(*output, pool, base);
            lemma_no_defs_push(exp_code(*output, pool, base).code, whole.last());
            assert(whole =~= exp_code(*output, pool, base).code.push(whole.last()));
        },
        LineStmtKind::Return { result } => {
            match result {
                Some(e) => {
                    let a = exp_code(*e, pool, base);
                    lemma_exp_no_defs(*e, pool, base);
                    lemma_no_defs_push(a.code, Quad::SetRet { src: a.value });
                    lemma_no_defs_push(
                        a.code.push(Quad::SetRet { src: a.value }),
                        Quad::Goto { target: exit as usize },
                    );
                },
                None => {},
            }
        },
        LineStmtKind::Call(c) => {
            lemma_call_no_defs(*c, pool, base);
        },
        _ => {},
    }
}

/// The code of a variable declaration defines no label.
pub proof fn lemma_var_decl_no_defs(v: VarDecl, pool: Seq<Seq<char>>, base: nat)
    ensures
        no_defs(var_decl_code(v, pool, base).code),
{
    let whole = var_decl_code(v, pool, base).code;
    match v.init_val {
        Some(e) => match *v.var_type.kind {
            TypeKind::Prim(_) => {
                lemma_exp_no_defs(*e, pool, base);
                lemma_no_defs_push(exp_code(*e, pool, base).code, whole.last());
                assert(whole =~= exp_code(*e, pool, base).code.push(whole.last()));
            },
            TypeKind::Class(_) => {},
        },
        None => {},
    }
}

/// Labels are only ever taken into use: the first unused label after a
/// statement is not below the first unused label before it.
pub proof fn lemma_stmt_mono(s: Stmt, pool: Seq<Seq<char>>, base: nat, lbl: nat, exit: nat)
    ensures
        lbl <= stmt_code(s, pool, base, lbl, exit).lbl,
    decreases s, 1nat,
{
    match s {
        Stmt::Block(b) => {
            lemma_block_mono(*b, pool, base, lbl, exit);
        },
        _ => {},
    }
}

/// Labels are only ever taken into use by statements.
pub proof fn lemma_stmts_mono(
    ss: Seq<Box<Stmt>>,
    pool: Seq<Seq<char>>,
    base: nat,
    lbl: nat,
    exit: nat,
    n: int,
)
    ensures
        lbl <= stmts_code(ss, pool, base, lbl, exit, n).lbl,
    decreases ss, n,
{
    if 0 < n <= ss.len() {
        let before = stmts_code(ss, pool, base, lbl, exit, n - 1);
        lemma_stmts_mono(ss, pool, base, lbl, exit, n - 1);
        lemma_stmt_mono(*ss[n - 1], pool, base + before.tmps.len(), before.lbl, exit);
    }
}

/// Labels are only ever taken into use by a block statement.
pub proof fn lemma_block_mono(b: BlockStmt, pool: Seq<Seq<char>>, base: nat, lbl: nat, exit: nat)
    ensures
        lbl <= block_code(b, pool, base, lbl, exit).lbl,
    decreases b, 0nat,
{
    match b {
        BlockStmt::If { cond, body } => {
            let c = exp_code(*cond, pool, base);
            lemma_stmts_mono(body@, pool, base + c.tmps.len(), lbl + 1, exit, body@.len() as int);
        },
        BlockStmt::While { cond, body } => {
            let c = exp_code(*cond, pool, base);
            lemma_stmts_mono(body@, pool, base + c.tmps.len(), lbl + 2, exit, body@.len() as int);
        },
        BlockStmt::IfElse { cond, true_branch, false_branch } => {
            let c = exp_code(*cond, pool, base);
            let t = body_code(true_branch@, pool, base + c.tmps.len(), lbl + 1, exit);
            lemma_stmts_mono(
                true_branch@,
                pool,
                base + c.tmps.len(),
                lbl + 1,
                exit,
                true_branch@.len() as int,
            );
            lemma_stmts_mono(
                false_branch@,
                pool,
                base + c.tmps.len() + t.tmps.len(),
                t.lbl + 1,
                exit,
                false_branch@.len() as int,
            );
        },
    }
}

/// What holds of the label `x` in code that takes the labels from `lo` up
/// to, but not including, `hi` into use: the code defines `x` once as the
/// label of a control-flow construct if `x` is one of them, and not at all
/// otherwise; it defines no exit label; and if `x` is one of them, the
/// code jumps to it.
pub open spec fn labels_ok(code: Seq<Instr>, lo: nat, hi: nat, x: usize) -> bool {
    &&& count_nops(code, x) == (if lo <= x < hi {
        1nat
    } else {
        0nat
    })
    &&& count_leaves(code, x) == 0
    &&& (lo <= x < hi ==> targeted(code, x))
}

/// Code that defines no label is in order for an empty range of labels.
pub proof fn lemma_plain_ok(code: Seq<Instr>, lo: nat, x: usize)
    requires
        no_defs(code),
    ensures
        labels_ok(code, lo, lo, x),
{
    lemma_no_defs_count(code, x);
}

/// Two pieces of code in order for adjoining ranges of labels are, one
/// after the other, in order for the whole range.
pub proof fn lemma_ok_concat(a: Seq<Instr>, b: Seq<Instr>, lo: nat, mid: nat, hi: nat, x: usize)
    requires
        lo <= mid <= hi,
        labels_ok(a, lo, mid, x),
        labels_ok(b, mid, hi, x),
    ensures
        labels_ok(a + b, lo, hi, x),
{
    lemma_count_concat(a, b, x);
    lemma_targeted_concat(a, b, x);
}

/// Every label that a statement takes into use is defined once by its
/// code, as the label of a control-flow construct, and jumped to by its
/// code; the code defines no other label.
pub proof fn lemma_stmt_labels(
    s: Stmt,
    pool: Seq<Seq<char>>,
    base: nat,
    lbl: nat,
    exit: nat,
    x: usize,
)
    requires
        stmt_code(s, pool, base, lbl, exit).lbl <= usize::MAX,
    ensures
        lbl <= stmt_code(s, pool, base, lbl, exit).lbl,
        labels_ok(
            stmt_code(s, pool, base, lbl, exit).code,
            lbl,
            stmt_code(s, pool, base, lbl, exit).lbl,
            x,
        ),
    decreases s, 2nat,
{
    match s {
        Stmt::Block(b) => {
            lemma_block_labels(*b, pool, base, lbl, exit, x);
        },
        Stmt::Line(l) => {
            lemma_line_no_defs(*l, pool, base, exit);
            lemma_plain_ok(line_code(*l, pool, base, exit).code, lbl, x);
        },
        Stmt::VarDecl(v) => {
            lemma_var_decl_no_defs(*v, pool, base);
            lemma_plain_ok(var_decl_code(*v, pool, base).code, lbl, x);
        },
    }
}

/// Every label that statements take into use is defined once by their
/// code and jumped to by their code.
pub proof fn lemma_stmts_labels(
    ss: Seq<Box<Stmt>>,
    pool: Seq<Seq<char>>,
    base: nat,
    lbl: nat,
    exit: nat,
    n: int,
    x: usize,
)
    requires
        stmts_code(ss, pool, base, lbl, exit, n).lbl <= usize::MAX,
    ensures
        lbl <= stmts_code(ss, pool, base, lbl, exit, n).lbl,
        labels_ok(
            stmts_code(ss, pool, base, lbl, exit, n).code,
            lbl,
            stmts_code(ss, pool, base, lbl, exit, n).lbl,
            x,
        ),
    decreases ss, n,
{
    if 0 < n <= ss.len() {
        let before = stmts_code(ss, pool, base, lbl, exit, n - 1);
        let s = stmt_code(*ss[n - 1], pool, base + before.tmps.len(), before.lbl, exit);
        lemma_stmt_mono(*ss[n - 1], pool, base + before.tmps.len(), before.lbl, exit);
        lemma_stmts_labels(ss, pool, base, lbl, exit, n - 1, x);
        lemma_stmt_labels(*ss[n - 1], pool, base + before.tmps.len(), before.lbl, exit, x);
        lemma_ok_concat(before.code, s.code, lbl, before.lbl, s.lbl, x);
    } else {
        lemma_plain_ok(Seq::<Instr>::empty(), lbl, x);
    }
}

/// The labels of an `if` without `else` are in order.
#[verifier::rlimit(80)]
#[verifier::spinoff_prover]
pub proof fn lemma_if_labels(
    b: BlockStmt,
    pool: Seq<Seq<char>>,
    base: nat,
    lbl: nat,
    exit: nat,
    x: usize,
)
    requires
        block_code(b, pool, base, lbl, exit).lbl <= usize::MAX,
        b is If,
    ensures
        lbl <= block_code(b, pool, base, lbl, exit).lbl,
        labels_ok(
            block_code(b, pool, base, lbl, exit).code,
            lbl,
            block_code(b, pool, base, lbl, exit).lbl,
            x,
        ),
    decreases b, 0nat,
{
    match b {
        BlockStmt::If { cond, body } => {
            let c = exp_code(*cond, pool, base);
            let inner = body_code(body@, pool, base + c.tmps.len(), lbl + 1, exit);
            lemma_exp_no_defs(*cond, pool, base);
            lemma_stmts_labels(
                body@,
                pool,
                base + c.tmps.len(),
                lbl + 1,
                exit,
                body@.len() as int,
                x,
            );
            let jump = Quad::Ifz { cond: c.value, target: lbl as usize };
            let mark = Quad::<Seq<char>>::Label { label: lbl as usize };
            let s1 = c.code.push(jump);
            let s2 = s1 + inner.code;
            lemma_no_defs_count(c.code, x);
            lemma_count_push(c.code, jump, x);
            lemma_targeted_push(c.code, jump, x);
            lemma_count_concat(s1, inner.code, x);
            lemma_targeted_concat(s1, inner.code, x);
            lemma_count_push(s2, mark, x);
            lemma_targeted_push(s2, mark, x);
        },
        _ => {},
    }
}

/// The labels of a `while` are in order.
#[verifier::rlimit(80)]
#[verifier::spinoff_prover]
pub proof fn lemma_while_labels(
    b: BlockStmt,
    pool: Seq<Seq<char>>,
    base: nat,
    lbl: nat,
    exit: nat,
    x: usize,
)
    requires
        block_code(b, pool, base, lbl, exit).lbl <= usize::MAX,
        b is While,
    ensures
        lbl <= block_code(b, pool, base, lbl, exit).lbl,
        labels_ok(
            block_code(b, pool, base, lbl, exit).code,
            lbl,
            block_code(b, pool, base, lbl, exit).lbl,
            x,
        ),
    decreases b, 0nat,
{
    match b {
        BlockStmt::While { cond, body } => {
            let c = exp_code(*cond, pool, base);
            let inner = body_code(body@, pool, base + c.tmps.len(), lbl + 2, exit);
            lemma_exp_no_defs(*cond, pool, base);
            lemma_stmts_labels(
                body@,
                pool,
                base + c.tmps.len(),
                lbl + 2,
                exit,
                body@.len() as int,
                x,
            );
            let head = Quad::<Seq<char>>::Label { label: lbl as usize };
            let jump = Quad::Ifz { cond: c.value, target: (lbl + 1) as usize };
            let back = Quad::<Seq<char>>::Goto { target: lbl as usize };
            let mark = Quad::<Seq<char>>::Label { label: (lbl + 1) as usize };
            let s0 = seq![head];
            let s1 = s0 + c.code;
            let s2 = s1.push(jump);
            let s3 = s2 + inner.code;
            let s4 = s3.push(back);
            lemma_count_push(Seq::<Instr>::empty(), head, x);
            assert(Seq::<Instr>::empty().push(head) =~= s0);
            lemma_no_defs_count(c.code, x);
            lemma_count_concat(s0, c.code, x);
            lemma_count_push(s1, jump, x);
            lemma_targeted_push(s1, jump, x);
            lemma_count_concat(s2, inner.code, x);
            lemma_targeted_concat(s2, inner.code, x);
            lemma_count_push(s3, back, x);
            lemma_targeted_push(s3, back, x);
            lemma_count_push(s4, mark, x);
            lemma_targeted_push(s4, mark, x);
        },
        _ => {},
    }
}

/// The labels of an `if` with `else` are in order.
#[verifier::rlimit(80)]
#[verifier::spinoff_prover]
pub proof fn lemma_if_else_labels(
    b: BlockStmt,
    pool: Seq<Seq<char>>,
    base: nat,
    lbl: nat,
    exit: nat,
    x: usize,
)
    requires
        block_code(b, pool, base, lbl, exit).lbl <= usize::MAX,
        b is IfElse,
    ensures
        lbl <= block_code(b, pool, base, lbl, exit).lbl,
        labels_ok(
            block_code(b, pool, base, lbl, exit).code,
            lbl,
            block_code(b, pool, base, lbl, exit).lbl,
            x,
        ),
    decreases b, 0nat,
{
    match b {
        BlockStmt::IfElse { cond, true_branch, false_branch } => {
            let c = exp_code(*cond, pool, base);
            let t = body_code(true_branch@, pool, base + c.tmps.len(), lbl + 1, exit);
            let f = body_code(
                false_branch@,
                pool,
                base + c.tmps.len() + t.tmps.len(),
                t.lbl + 1,
                exit,
            );
            lemma_exp_no_defs(*cond, pool, base);
            lemma_stmts_mono(
                false_branch@,
                pool,
                base + c.tmps.len() + t.tmps.len(),
                t.lbl + 1,
                exit,
                false_branch@.len() as int,
            );
            lemma_stmts_labels(
                true_branch@,
                pool,
                base + c.tmps.len(),
                lbl + 1,
                exit,
                true_branch@.len() as int,
                x,
            );
            lemma_stmts_labels(
                false_branch@,
                pool,
                base + c.tmps.len() + t.tmps.len(),
                t.lbl + 1,
                exit,
                false_branch@.len() as int,
                x,
            );
            let jump = Quad::Ifz { cond: c.value, target: lbl as usize };
            let skip = Quad::<Seq<char>>::Goto { target: t.lbl as usize };
            let other = Quad::<Seq<char>>::Label { label: lbl as usize };
            let mark = Quad::<Seq<char>>::Label { label: t.lbl as usize };
            let s1 = c.code.push(jump);
            let s2 = s1 + t.code;
            let s3 = s2.push(skip);
            let s4 = s3.push(other);
            let s5 = s4 + f.code;
            lemma_no_defs_count(c.code, x);
            lemma_count_push(c.code, jump, x);
            lemma_targeted_push(c.code, jump, x);
            lemma_count_concat(s1, t.code, x);
            lemma_targeted_concat(s1, t.code, x);
            lemma_count_push(s2, skip, x);
            lemma_targeted_push(s2, skip, x);
            lemma_count_push(s3, other, x);
            lemma_targeted_push(s3, other, x);
            lemma_count_concat(s4, f.code, x);
            lemma_targeted_concat(s4, f.code, x);
            lemma_count_push(s5, mark, x);
            lemma_targeted_push(s5, mark, x);
        },
        _ => {},
    }
}

/// Every label that a block statement takes into use is defined once by
/// its code and jumped to by its code.
pub proof fn lemma_block_labels(
    b: BlockStmt,
    pool: Seq<Seq<char>>,
    base: nat,
    lbl: nat,
    exit: nat,
    x: usize,
)
    requires
        block_code(b, pool, base, lbl, exit).lbl <= usize::MAX,
    ensures
        lbl <= block_code(b, pool, base, lbl, exit).lbl,
        labels_ok(
            block_code(b, pool, base, lbl, exit).code,
            lbl,
            block_code(b, pool, base, lbl, exit).lbl,
            x,
        ),
    decreases b, 1nat,
{
    match b {
        BlockStmt::If { .. } => {
            lemma_if_labels(b, pool, base, lbl, exit, x);
        },
        BlockStmt::While { .. } => {
            lemma_while_labels(b, pool, base, lbl, exit, x);
        },
        BlockStmt::IfElse { .. } => {
            lemma_if_else_labels(b, pool, base, lbl, exit, x);
        },
    }
}

/// The labels of a function are in order: its exit label, which is the
/// first label that it takes into use, is defined once, by its `leave`;
/// every other label that it takes into use is defined once as the label
/// of a control-flow construct, and jumped to; and it defines no other
/// label.
#[verifier::rlimit(80)]
#[verifier::spinoff_prover]
pub proof fn lemma_fn_labels(f: FnDecl, pool: Seq<Seq<char>>, lbl: nat, x: usize)
    requires
        fn_code(f, pool, lbl).lbl <= usize::MAX,
    ensures
        lbl < fn_code(f, pool, lbl).lbl,
        count_nops(fn_code(f, pool, lbl).code, x) == (if lbl < x < fn_code(f, pool, lbl).lbl {
            1nat
        } else {
            0nat
        }),
        count_leaves(fn_code(f, pool, lbl).code, x) == (if x == lbl {
            1nat
        } else {
            0nat
        }),
        lbl < x < fn_code(f, pool, lbl).lbl ==> targeted(fn_code(f, pool, lbl).code, x),
{
    let body = body_code(f.body@, pool, 0, lbl + 1, lbl);
    lemma_stmts_labels(f.body@, pool, 0, lbl + 1, lbl, f.body@.len() as int, x);
    let enter = Quad::Enter { name: f.id.name@ };
    let leave = Quad::Leave { label: lbl as usize, name: f.id.name@ };
    let s0 = seq![enter];
    let args = getargs(f.args@, f.args@.len() as int);
    let s1 = s0 + args;
    let s2 = s1 + body.code;
    lemma_count_push(Seq::<Instr>::empty(), enter, x);
    assert(Seq::<Instr>::empty().push(enter) =~= s0);
    lemma_getargs_no_defs(f.args@, f.args@.len() as int);
    lemma_no_defs_count(args, x);
    lemma_count_concat(s0, args, x);
    lemma_count_concat(s1, body.code, x);
    lemma_targeted_concat(s1, body.code, x);
    lemma_count_push(s2, leave, x);
    lemma_targeted_push(s2, leave, x);
}

/// The labels of the functions of a program are in order: every label
/// below the first unused one is defined once, no other label is defined,
/// and every label of a control-flow construct is jumped to.
pub proof fn lemma_decls_labels(
    globals: Seq<Box<Decl>>,
    pool: Seq<Seq<char>>,
    classes: Map<Seq<char>, Seq<FieldSig>>,
    n: int,
    x: usize,
)
    requires
        decls_code(globals, pool, classes, n).lbl <= usize::MAX,
    ensures
        count_nops(decls_code(globals, pool, classes, n).code, x) + count_leaves(
            decls_code(globals, pool, classes, n).code,
            x,
        ) == (if x < decls_code(globals, pool, classes, n).lbl {
            1nat
        } else {
            0nat
        }),
        count_nops(decls_code(globals, pool, classes, n).code, x) > 0 ==> targeted(
            decls_code(globals, pool, classes, n).code,
            x,
        ),
    decreases n,
{
    if 0 < n <= globals.len() {
        let before = decls_code(globals, pool, classes, n - 1);
        match *globals[n - 1] {
            Decl::FnDecl(f) => {
                let c = fn_code(*f, pool, before.lbl);
                lemma_fn_mono(*f, pool, before.lbl);
                lemma_decls_labels(globals, pool, classes, n - 1, x);
                lemma_fn_labels(*f, pool, before.lbl, x);
                lemma_count_concat(before.code, c.code, x);
                lemma_targeted_concat(before.code, c.code, x);
            },
            _ => {
                lemma_decls_labels(globals, pool, classes, n - 1, x);
            },
        }
    }
}

/// A function takes at least its exit label into use.
pub proof fn lemma_fn_mono(f: FnDecl, pool: Seq<Seq<char>>, lbl: nat)
    ensures
        lbl < fn_code(f, pool, lbl).lbl,
{
    lemma_stmts_mono(f.body@, pool, 0, lbl + 1, lbl, f.body@.len() as int);
}

/// Label uniqueness. In the three-address code of a program, every label
/// below the first unused one is defined exactly once, as the label of a
/// control-flow construct or as the exit label of a function, and no other
/// label is defined; so no two constructs share a label. Every label of a
/// control-flow construct is the target of at least one jump. The exit
/// label of a function is jumped to by the `return`s of the function, of
/// which there may be none: the laws of the jumps state that it is jumped
/// to when there is one, and that every jump goes to a defined label.
pub proof fn lemma_label_uniqueness(
    p: crate::parser::ast::Program,
    classes: Map<Seq<char>, Seq<FieldSig>>,
    x: usize,
)
    requires
        crate::assembly::three_ac::program_labels(p, classes) <= usize::MAX,
    ensures
        count_nops(crate::assembly::three_ac::program_ir(p, classes).code, x) + count_leaves(
            crate::assembly::three_ac::program_ir(p, classes).code,
            x,
        ) == (if x < crate::assembly::three_ac::program_labels(p, classes) {
            1nat
        } else {
            0nat
        }),
        count_nops(crate::assembly::three_ac::program_ir(p, classes).code, x) > 0 ==> targeted(
            crate::assembly::three_ac::program_ir(p, classes).code,
            x,
        ),
{
    let n = p.globals@.len() as int;
    lemma_decls_labels(
        p.globals@,
        crate::assembly::three_ac::decls_strings(p.globals@, n),
        classes,
        n,
        x,
    );
}

} // verus!
