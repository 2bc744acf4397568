//! The three-address code of a program: what it is, as functions of the
//! syntax tree.
//!
//! Expressions are lowered operand by operand, left to right; every unary
//! and binary operation and every call used as a value stores its result
//! in a fresh temporary. Temporaries are numbered from 0 in each function,
//! labels from 0 in the whole program, both in the order in which the code
//! that uses them first is emitted.

use vstd::prelude::*;
use vstd::string::*;
use crate::analysis::env::{dotted, formal_name, formal_type, FieldSig};
use crate::assembly::ir::{Operand, Place, Quad, Variable3ACType};
use crate::parser::ast::{
    unbox_slot,
    BinaryExp,
    BlockStmt,
    CallExp,
    Decl,
    Exp,
    ExpKind,
    FnDecl,
    FormalDecl,
    LineStmt,
    LineStmtKind,
    PrimType,
    Program,
    Stmt,
    Type,
    TypeKind,
    UnaryExp,
    VarDecl,
};

verus! {

/// An instruction over plain text.
pub type Instr = Quad<Seq<char>>;

/// An operand over plain text.
pub type Value = Operand<Seq<char>>;

/// A global or a local: its name and its type.
pub struct VarSig {
    pub id: Seq<char>,
    pub var_type: Variable3ACType,
}

/// The storage type of a value of the type `t`: `bool` and `string` for
/// those types, `int` for every other.
pub open spec fn storage_type(t: Type) -> Variable3ACType {
    match *t.kind {
        TypeKind::Prim(PrimType::Bool) => Variable3ACType::Bool,
        TypeKind::Prim(PrimType::String) => Variable3ACType::String,
        _ => Variable3ACType::Int,
    }
}

/// The storage type of the temporary that holds the value of a node whose
/// type slot is `slot`: that of the type in the slot, `int` for an empty
/// slot.
pub open spec fn tmp_type(slot: Option<Type>) -> Variable3ACType {
    match slot {
        Some(t) => storage_type(t),
        None => Variable3ACType::Int,
    }
}

/// The index of the first string of `pool[i..]` that is `s`, or the length
/// of the pool when there is none.
pub open spec fn pool_index(pool: Seq<Seq<char>>, s: Seq<char>, i: int) -> int
    decreases pool.len() - i,
{
    if i < 0 || i >= pool.len() {
        pool.len() as int
    } else if pool[i] == s {
        i
    } else {
        pool_index(pool, s, i + 1)
    }
}

/// The code of an expression: the instructions to run before its value is
/// read, the types of the temporaries that these instructions introduce,
/// and the operand that holds the value.
pub struct ExpCode {
    pub code: Seq<Instr>,
    pub tmps: Seq<Variable3ACType>,
    pub value: Value,
}

/// The code of a list of expressions.
pub struct ArgsCode {
    pub code: Seq<Instr>,
    pub tmps: Seq<Variable3ACType>,
    pub values: Seq<Value>,
}

/// Code without a value: instructions and the types of the temporaries
/// that they introduce.
pub struct Code {
    pub code: Seq<Instr>,
    pub tmps: Seq<Variable3ACType>,
}

/// The code of statements: instructions, the types of the temporaries that
/// they introduce, and the first label that they leave unused.
pub struct StmtCode {
    pub code: Seq<Instr>,
    pub tmps: Seq<Variable3ACType>,
    pub lbl: nat,
}

/// The temporary of the number `n`.
pub open spec fn tmp(n: nat) -> Place<Seq<char>> {
    Place::Tmp(n as usize)
}

/// The code of an expression in a function that has `base` temporaries so
/// far, with the string pool `pool`.
pub open spec fn exp_code(e: Exp, pool: Seq<Seq<char>>, base: nat) -> ExpCode
    decreases e, 1nat,
{
    match *e.kind {
        ExpKind::True => ExpCode { code: seq![], tmps: seq![], value: Operand::True },
        ExpKind::False => ExpCode { code: seq![], tmps: seq![], value: Operand::False },
        ExpKind::Magic => ExpCode { code: seq![], tmps: seq![], value: Operand::Magic },
        ExpKind::IntLit(n) => ExpCode { code: seq![], tmps: seq![], value: Operand::Lit(n) },
        ExpKind::StrLit(s) => ExpCode {
            code: seq![],
            tmps: seq![],
            value: Operand::Str(pool_index(pool, s@, 0) as usize),
        },
        ExpKind::Loc(l) => ExpCode {
            code: seq![],
            tmps: seq![],
            value: Operand::Sym(Place::Var(l.spec_name())),
        },
        ExpKind::UnaryExp(u) => unary_code(*u, pool, base),
        ExpKind::BinaryExp(b) => binary_code(*b, pool, base),
        ExpKind::CallExp(c) => call_value_code(*c, pool, base),
    }
}

/// The code of a unary operation: that of the operand, then the operation
/// into a fresh temporary.
pub open spec fn unary_code(u: UnaryExp, pool: Seq<Seq<char>>, base: nat) -> ExpCode
    decreases u, 0nat,
{
    let a = exp_code(*u.exp, pool, base);
    let t = tmp(base + a.tmps.len());
    ExpCode {
        code: a.code.push(Quad::Unary { dest: t, op: *u.kind, src: a.value }),
        tmps: a.tmps.push(tmp_type(unbox_slot(u.expr_type))),
        value: Operand::Sym(t),
    }
}

/// The code of a binary operation: that of the left operand, that of the
/// right operand, then the operation into a fresh temporary.
pub open spec fn binary_code(b: BinaryExp, pool: Seq<Seq<char>>, base: nat) -> ExpCode
    decreases b, 0nat,
{
    let l = exp_code(*b.lhs, pool, base);
    let r = exp_code(*b.rhs, pool, base + l.tmps.len());
    let t = tmp(base + l.tmps.len() + r.tmps.len());
    ExpCode {
        code: (l.code + r.code).push(
            Quad::Binary { dest: t, lhs: l.value, op: *b.kind, rhs: r.value },
        ),
        tmps: (l.tmps + r.tmps).push(tmp_type(unbox_slot(b.expr_type))),
        value: Operand::Sym(t),
    }
}

/// The code of the expressions `args[..n]`, one after the other.
pub open spec fn args_code(args: Seq<Box<Exp>>, pool: Seq<Seq<char>>, base: nat, n: int) -> ArgsCode
    decreases args, n,
{
    if n <= 0 || n > args.len() {
        ArgsCode { code: seq![], tmps: seq![], values: seq![] }
    } else {
        let before = args_code(args, pool, base, n - 1);
        let a = exp_code(*args[n - 1], pool, base + before.tmps.len());
        ArgsCode {
            code: before.code + a.code,
            tmps: before.tmps + a.tmps,
            values: before.values.push(a.value),
        }
    }
}

/// The instructions that hand the values `values[..n]` to a callee: the
/// first as argument 1, and so on.
pub open spec fn setargs(values: Seq<Value>, n: int) -> Seq<Instr>
    decreases n,
{
    if n <= 0 || n > values.len() {
        seq![]
    } else {
        setargs(values, n - 1).push(Quad::SetArg { index: n as usize, src: values[n - 1] })
    }
}

/// The code of a call whose value is not used: that of the actuals, the
/// handing over of their values, then the call.
pub open spec fn call_code(c: CallExp, pool: Seq<Seq<char>>, base: nat) -> Code
    decreases c, 0nat,
{
    let a = args_code(c.args@, pool, base, c.args@.len() as int);
    Code {
        code: (a.code + setargs(a.values, a.values.len() as int)).push(
            Quad::Call { name: c.name.spec_name() },
        ),
        tmps: a.tmps,
    }
}

/// The code of a call used as a value: that of the call, then the copy of
/// what the callee returned into a fresh temporary.
pub open spec fn call_value_code(c: CallExp, pool: Seq<Seq<char>>, base: nat) -> ExpCode
    decreases c, 1nat,
{
    let a = call_code(c, pool, base);
    let t = tmp(base + a.tmps.len());
    ExpCode {
        code: a.code.push(Quad::GetRet { dest: t }),
        tmps: a.tmps.push(tmp_type(c.fn_type)),
        value: Operand::Sym(t),
    }
}

/// The code of a variable declaration in a function: that of its initial
/// value and the store into the variable, when it has an initial value and
/// is not of a class type; nothing otherwise.
pub open spec fn var_decl_code(v: VarDecl, pool: Seq<Seq<char>>, base: nat) -> Code {
    match v.init_val {
        Some(e) => match *v.var_type.kind {
            TypeKind::Prim(_) => {
                let a = exp_code(*e, pool, base);
                Code {
                    code: a.code.push(Quad::Assign { dest: Place::Var(v.id.name@), src: a.value }),
                    tmps: a.tmps,
                }
            },
            TypeKind::Class(_) => Code { code: seq![], tmps: seq![] },
        },
        None => Code { code: seq![], tmps: seq![] },
    }
}

/// The code of a line statement in a function whose exit label is `exit`.
///
/// `x = e`: the code of `e`, then the store. `x--` and `x++`: one
/// subtraction or addition of 1 in place. `give e`: the code of `e`, then
/// `WRITE`. `take x`: `READ`. `return e`: the code of `e`, `setret`, then
/// the jump to the exit label; `return`: the jump alone. A call: its code.
pub open spec fn line_code(s: LineStmt, pool: Seq<Seq<char>>, base: nat, exit: nat) -> Code {
    match *s.kind {
        LineStmtKind::Assign { dest, src } => {
            let a = exp_code(*src, pool, base);
            Code {
                code: a.code.push(
                    Quad::Assign { dest: Place::Var(dest.spec_name()), src: a.value },
                ),
                tmps: a.tmps,
            }
        },
        LineStmtKind::PostDec { loc } => Code {
            code: seq![
                Quad::Binary {
                    dest: Place::Var(loc.spec_name()),
                    lhs: Operand::Sym(Place::Var(loc.spec_name())),
                    op: crate::parser::ast::BinaryExpKind::Minus,
                    rhs: Operand::Lit(1),
                },
            ],
            tmps: seq![],
        },
        LineStmtKind::PostInc { loc } => Code {
            code: seq![
                Quad::Binary {
                    dest: Place::Var(loc.spec_name()),
                    lhs: Operand::Sym(Place::Var(loc.spec_name())),
                    op: crate::parser::ast::BinaryExpKind::Plus,
                    rhs: Operand::Lit(1),
                },
            ],
            tmps: seq![],
        },
        LineStmtKind::Give { output } => {
            let a = exp_code(*output, pool, base);
            Code { code: a.code.push(Quad::Write { src: a.value }), tmps: a.tmps }
        },
        LineStmtKind::Take { recipient } => Code {
            code: seq![Quad::Read { dest: Place::Var(recipient.spec_name()) }],
            tmps: seq![],
        },
        LineStmtKind::Return { result } => match result {
            Some(e) => {
                let a = exp_code(*e, pool, base);
                Code {
                    code: a.code.push(Quad::SetRet { src: a.value }).push(
                        Quad::Goto { target: exit as usize },
                    ),
                    tmps: a.tmps,
                }
            },
            None => Code { code: seq![Quad::Goto { target: exit as usize }], tmps: seq![] },
        },
        LineStmtKind::Exit => Code { code: seq![Quad::Exit], tmps: seq![] },
        LineStmtKind::Call(c) => call_code(*c, pool, base),
    }
}

/// The code of a statement, in a function that has `base` temporaries so
/// far and whose exit label is `exit`, when `lbl` is the first unused
/// label.
pub open spec fn stmt_code(s: Stmt, pool: Seq<Seq<char>>, base: nat, lbl: nat, exit: nat) -> StmtCode
    decreases s, 1nat,
{
    match s {
        Stmt::Block(b) => block_code(*b, pool, base, lbl, exit),
        Stmt::Line(l) => {
            let c = line_code(*l, pool, base, exit);
            StmtCode { code: c.code, tmps: c.tmps, lbl }
        },
        Stmt::VarDecl(v) => {
            let c = var_decl_code(*v, pool, base);
            StmtCode { code: c.code, tmps: c.tmps, lbl }
        },
    }
}

/// The code of the statements `ss[..n]`, one after the other.
pub open spec fn stmts_code(
    ss: Seq<Box<Stmt>>,
    pool: Seq<Seq<char>>,
    base: nat,
    lbl: nat,
    exit: nat,
    n: int,
) -> StmtCode
    decreases ss, n,
{
    if n <= 0 || n > ss.len() {
        StmtCode { code: seq![], tmps: seq![], lbl }
    } else {
        let before = stmts_code(ss, pool, base, lbl, exit, n - 1);
        let s = stmt_code(*ss[n - 1], pool, base + before.tmps.len(), before.lbl, exit);
        StmtCode { code: before.code + s.code, tmps: before.tmps + s.tmps, lbl: s.lbl }
    }
}

/// The code of a whole body.
pub open spec fn body_code(ss: Seq<Box<Stmt>>, pool: Seq<Seq<char>>, base: nat, lbl: nat, exit: nat) -> StmtCode
    decreases ss, ss.len() + 1,
{
    stmts_code(ss, pool, base, lbl, exit, ss.len() as int)
}

/// The code of a block statement.
///
/// `if (c) { b }`: the code of `c`; `IFZ c goto after`; `b`; `after:`.
///
/// `while (c) { b }`: `head:`; the code of `c`; `IFZ c goto after`; `b`;
/// `goto head`; `after:`.
///
/// `if (c) { t } else { f }`: the code of `c`; `IFZ c goto else`; `t`;
/// `goto after`; `else:`; `f`; `after:`.
///
/// Each label is the first unused one at the point where the instruction
/// that first names it is emitted.
pub open spec fn block_code(b: BlockStmt, pool: Seq<Seq<char>>, base: nat, lbl: nat, exit: nat) -> StmtCode
    decreases b, 0nat,
{
    match b {
        BlockStmt::If { cond, body } => {
            let c = exp_code(*cond, pool, base);
            let after = lbl;
            let inner = body_code(body@, pool, base + c.tmps.len(), lbl + 1, exit);
            StmtCode {
                code: (c.code.push(Quad::Ifz { cond: c.value, target: after as usize })
                    + inner.code).push(Quad::Label { label: after as usize }),
                tmps: c.tmps + inner.tmps,
                lbl: inner.lbl,
            }
        },
        BlockStmt::While { cond, body } => {
            let head = lbl;
            let c = exp_code(*cond, pool, base);
            let after = lbl + 1;
            let inner = body_code(body@, pool, base + c.tmps.len(), lbl + 2, exit);
            StmtCode {
                code: ((seq![Quad::Label { label: head as usize }] + c.code).push(
                    Quad::Ifz { cond: c.value, target: after as usize },
                ) + inner.code).push(Quad::Goto { target: head as usize }).push(
                    Quad::Label { label: after as usize },
                ),
                tmps: c.tmps + inner.tmps,
                lbl: inner.lbl,
            }
        },
        BlockStmt::IfElse { cond, true_branch, false_branch } => {
            let c = exp_code(*cond, pool, base);
            let other = lbl;
            let t = body_code(true_branch@, pool, base + c.tmps.len(), lbl + 1, exit);
            let after = t.lbl;
            let f = body_code(
                false_branch@,
                pool,
                base + c.tmps.len() + t.tmps.len(),
                t.lbl + 1,
                exit,
            );
            StmtCode {
                code: ((c.code.push(Quad::Ifz { cond: c.value, target: other as usize })
                    + t.code).push(Quad::Goto { target: after as usize }).push(
                    Quad::Label { label: other as usize },
                ) + f.code).push(Quad::Label { label: after as usize }),
                tmps: c.tmps + t.tmps + f.tmps,
                lbl: f.lbl,
            }
        },
    }
}

/// The instructions that store the arguments of a call in the formals
/// `args[..n]`: argument 1 in the first, and so on.
pub open spec fn getargs(args: Seq<Box<FormalDecl>>, n: int) -> Seq<Instr>
    decreases n,
{
    if n <= 0 || n > args.len() {
        seq![]
    } else {
        getargs(args, n - 1).push(
            Quad::GetArg { index: n as usize, dest: Place::Var(formal_name(*args[n - 1])) },
        )
    }
}

/// The code of a function when `lbl` is the first unused label: `enter`,
/// the stores of the arguments, the body, and `leave` under the exit
/// label, which is `lbl`.
pub open spec fn fn_code(f: FnDecl, pool: Seq<Seq<char>>, lbl: nat) -> StmtCode {
    let body = body_code(f.body@, pool, 0, lbl + 1, lbl);
    StmtCode {
        code: ((seq![Quad::Enter { name: f.id.name@ }] + getargs(f.args@, f.args@.len() as int))
            + body.code).push(Quad::Leave { label: lbl as usize, name: f.id.name@ }),
        tmps: body.tmps,
        lbl: body.lbl,
    }
}

/// The string literals of an expression, in the order in which they stand.
pub open spec fn exp_strings(e: Exp) -> Seq<Seq<char>>
    decreases e, 1nat,
{
    match *e.kind {
        ExpKind::StrLit(s) => seq![s@],
        ExpKind::UnaryExp(u) => exp_strings(*u.exp),
        ExpKind::BinaryExp(b) => exp_strings(*b.lhs) + exp_strings(*b.rhs),
        ExpKind::CallExp(c) => args_strings(c.args@, c.args@.len() as int),
        _ => seq![],
    }
}

/// The string literals of the expressions `args[..n]`.
pub open spec fn args_strings(args: Seq<Box<Exp>>, n: int) -> Seq<Seq<char>>
    decreases args, n,
{
    if n <= 0 || n > args.len() {
        seq![]
    } else {
        args_strings(args, n - 1) + exp_strings(*args[n - 1])
    }
}

/// The string literals of an optional expression.
pub open spec fn opt_strings(e: Option<Box<Exp>>) -> Seq<Seq<char>> {
    match e {
        Some(x) => exp_strings(*x),
        None => seq![],
    }
}

/// The string literals of a line statement.
pub open spec fn line_strings(s: LineStmt) -> Seq<Seq<char>> {
    match *s.kind {
        LineStmtKind::Assign { dest, src } => exp_strings(*src),
        LineStmtKind::Give { output } => exp_strings(*output),
        LineStmtKind::Return { result } => opt_strings(result),
        LineStmtKind::Call(c) => args_strings(c.args@, c.args@.len() as int),
        _ => seq![],
    }
}

/// The string literals of a statement.
pub open spec fn stmt_strings(s: Stmt) -> Seq<Seq<char>>
    decreases s, 1nat,
{
    match s {
        Stmt::Block(b) => match *b {
            BlockStmt::While { cond, body } => exp_strings(*cond) + stmts_strings(
                body@,
                body@.len() as int,
            ),
            BlockStmt::If { cond, body } => exp_strings(*cond) + stmts_strings(
                body@,
                body@.len() as int,
            ),
            BlockStmt::IfElse { cond, true_branch, false_branch } => exp_strings(*cond)
                + stmts_strings(true_branch@, true_branch@.len() as int) + stmts_strings(
                false_branch@,
                false_branch@.len() as int,
            ),
        },
        Stmt::Line(l) => line_strings(*l),
        Stmt::VarDecl(v) => opt_strings(v.init_val),
    }
}

/// The string literals of the statements `ss[..n]`.
pub open spec fn stmts_strings(ss: Seq<Box<Stmt>>, n: int) -> Seq<Seq<char>>
    decreases ss, n,
{
    if n <= 0 || n > ss.len() {
        seq![]
    } else {
        stmts_strings(ss, n - 1) + stmt_strings(*ss[n - 1])
    }
}

/// The string literals of the top-level declarations `globals[..n]`:
/// those of the initial values of the variables and of the bodies of the
/// functions.
pub open spec fn decls_strings(globals: Seq<Box<Decl>>, n: int) -> Seq<Seq<char>>
    decreases n,
{
    if n <= 0 || n > globals.len() {
        seq![]
    } else {
        decls_strings(globals, n - 1) + (match *globals[n - 1] {
            Decl::VarDecl(v) => opt_strings(v.init_val),
            Decl::FnDecl(f) => stmts_strings(f.body@, f.body@.len() as int),
            Decl::ClassDecl(_) => seq![],
        })
    }
}

/// The variables that the fields `fields[..n]` of an instance `owner` give:
/// one for each, named `owner--field`.
pub open spec fn field_vars(owner: Seq<char>, fields: Seq<FieldSig>, n: int) -> Seq<VarSig>
    decreases n,
{
    if n <= 0 || n > fields.len() {
        seq![]
    } else {
        field_vars(owner, fields, n - 1).push(
            VarSig {
                id: dotted(owner, fields[n - 1].id),
                var_type: storage_type(fields[n - 1].field_type),
            },
        )
    }
}

/// The storage that a variable declaration asks for: one variable for a
/// variable of a primitive type; for one of a known class, one variable
/// for each flattened field of the class; none for one of an unknown
/// class.
pub open spec fn var_sigs(v: VarDecl, classes: Map<Seq<char>, Seq<FieldSig>>) -> Seq<VarSig> {
    match *v.var_type.kind {
        TypeKind::Prim(_) => seq![VarSig { id: v.id.name@, var_type: storage_type(*v.var_type) }],
        TypeKind::Class(c) => if classes.contains_key(c.name@) {
            field_vars(v.id.name@, classes[c.name@], classes[c.name@].len() as int)
        } else {
            seq![]
        },
    }
}

/// The locals that a statement declares, blocks included.
pub open spec fn stmt_locals(s: Stmt, classes: Map<Seq<char>, Seq<FieldSig>>) -> Seq<VarSig>
    decreases s, 1nat,
{
    match s {
        Stmt::Block(b) => match *b {
            BlockStmt::While { cond, body } => stmts_locals(body@, classes, body@.len() as int),
            BlockStmt::If { cond, body } => stmts_locals(body@, classes, body@.len() as int),
            BlockStmt::IfElse { cond, true_branch, false_branch } => stmts_locals(
                true_branch@,
                classes,
                true_branch@.len() as int,
            ) + stmts_locals(false_branch@, classes, false_branch@.len() as int),
        },
        Stmt::Line(_) => seq![],
        Stmt::VarDecl(v) => var_sigs(*v, classes),
    }
}

/// The locals that the statements `ss[..n]` declare.
pub open spec fn stmts_locals(ss: Seq<Box<Stmt>>, classes: Map<Seq<char>, Seq<FieldSig>>, n: int) -> Seq<
    VarSig,
>
    decreases ss, n,
{
    if n <= 0 || n > ss.len() {
        seq![]
    } else {
        stmts_locals(ss, classes, n - 1) + stmt_locals(*ss[n - 1], classes)
    }
}

/// The locals that the formals `args[..n]` give: one for each.
pub open spec fn formal_vars(args: Seq<Box<FormalDecl>>, n: int) -> Seq<VarSig>
    decreases n,
{
    if n <= 0 || n > args.len() {
        seq![]
    } else {
        formal_vars(args, n - 1).push(
            VarSig {
                id: formal_name(*args[n - 1]),
                var_type: storage_type(formal_type(*args[n - 1])),
            },
        )
    }
}

/// The locals of a function: its formals, then the variables that its body
/// declares, in order.
pub open spec fn fn_locals(f: FnDecl, classes: Map<Seq<char>, Seq<FieldSig>>) -> Seq<VarSig> {
    formal_vars(f.args@, f.args@.len() as int) + stmts_locals(
        f.body@,
        classes,
        f.body@.len() as int,
    )
}

/// The globals that the top-level declarations `globals[..n]` give.
pub open spec fn decls_globals(
    globals: Seq<Box<Decl>>,
    classes: Map<Seq<char>, Seq<FieldSig>>,
    n: int,
) -> Seq<VarSig>
    decreases n,
{
    if n <= 0 || n > globals.len() {
        seq![]
    } else {
        decls_globals(globals, classes, n - 1) + (match *globals[n - 1] {
            Decl::VarDecl(v) => var_sigs(*v, classes),
            _ => seq![],
        })
    }
}

/// What the symbol table records of a function: its name, its locals, the
/// types of its temporaries, and where its code starts and ends.
pub struct FnView {
    pub name: Seq<char>,
    pub locals: Seq<VarSig>,
    pub tmps: Seq<Variable3ACType>,
    pub start: nat,
    pub end: nat,
}

/// The code of functions: what the symbol table records of each, all their
/// instructions, and the first label left unused.
pub struct FnsCode {
    pub functions: Seq<FnView>,
    pub code: Seq<Instr>,
    pub lbl: nat,
}

/// The code of the functions among the top-level declarations
/// `globals[..n]`, in order; labels are numbered from 0.
pub open spec fn decls_code(
    globals: Seq<Box<Decl>>,
    pool: Seq<Seq<char>>,
    classes: Map<Seq<char>, Seq<FieldSig>>,
    n: int,
) -> FnsCode
    decreases n,
{
    if n <= 0 || n > globals.len() {
        FnsCode { functions: seq![], code: seq![], lbl: 0 }
    } else {
        let before = decls_code(globals, pool, classes, n - 1);
        match *globals[n - 1] {
            Decl::FnDecl(f) => {
                let c = fn_code(*f, pool, before.lbl);
                FnsCode {
                    functions: before.functions.push(
                        FnView {
                            name: f.id.name@,
                            locals: fn_locals(*f, classes),
                            tmps: c.tmps,
                            start: before.code.len(),
                            end: before.code.len() + c.code.len(),
                        },
                    ),
                    code: before.code + c.code,
                    lbl: c.lbl,
                }
            },
            _ => before,
        }
    }
}

/// The three-address code of a program: globals, string pool, functions
/// and instructions.
pub struct IrView {
    pub globals: Seq<VarSig>,
    pub strings: Seq<Seq<char>>,
    pub functions: Seq<FnView>,
    pub code: Seq<Instr>,
}

/// The three-address code of a program whose classes flatten to `classes`.
pub open spec fn program_ir(p: Program, classes: Map<Seq<char>, Seq<FieldSig>>) -> IrView {
    let n = p.globals@.len() as int;
    let pool = decls_strings(p.globals@, n);
    let fns = decls_code(p.globals@, pool, classes, n);
    IrView {
        globals: decls_globals(p.globals@, classes, n),
        strings: pool,
        functions: fns.functions,
        code: fns.code,
    }
}

/// The number of labels that the three-address code of a program takes
/// into use.
pub open spec fn program_labels(p: Program, classes: Map<Seq<char>, Seq<FieldSig>>) -> nat {
    let n = p.globals@.len() as int;
    decls_code(p.globals@, decls_strings(p.globals@, n), classes, n).lbl
}

} // verus!
