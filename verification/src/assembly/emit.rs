//! The generator of three-address code: it walks the syntax tree and
//! appends instructions to a growing list.

use vstd::prelude::*;
use vstd::string::*;
use crate::analysis::env::name_of_formal;
use crate::assembly::ir::{quads_view, Operand, Place, Quad, Variable3ACType};
use crate::assembly::three_ac::{
    args_code,
    binary_code,
    block_code,
    body_code,
    call_code,
    call_value_code,
    exp_code,
    fn_code,
    getargs,
    line_code,
    pool_index,
    setargs,
    stmt_code,
    stmts_code,
    storage_type,
    tmp_type,
    unary_code,
    var_decl_code,
    Instr,
    Value,
};
use crate::parser::ast::{
    unbox_slot,
    BinaryExp,
    BinaryExpKind,
    BlockStmt,
    CallExp,
    Exp,
    ExpKind,
    FnDecl,
    LineStmt,
    LineStmtKind,
    Loc,
    PrimType,
    Stmt,
    Type,
    TypeKind,
    UnaryExp,
    VarDecl,
};

verus! {

/// The two counters of the generator: the first unused label, and the
/// number of temporaries of the function being generated.
#[derive(Debug, Clone, Copy, PartialEq, Eq, Structural)]
pub struct Counter {
    pub lbl: usize,
    pub tmp: usize,
}

/// The state of the generator: the instructions emitted so far, the types
/// of the temporaries of the function being generated, and the counters.
pub struct Emitter {
    pub code: Vec<Quad<String>>,
    pub tmps: Vec<Variable3ACType>,
    pub counts: Counter,
}

/// The texts of a list of strings.
pub open spec fn strings_view(v: Seq<String>) -> Seq<Seq<char>> {
    Seq::new(v.len(), |i: int| v[i]@)
}

impl Emitter {
    /// Whether the state is in order: there are no more labels in use than
    /// instructions, and the counter of temporaries is their number.
    pub open spec fn wf(&self) -> bool {
        self.counts.lbl <= self.code@.len() && self.counts.tmp == self.tmps@.len()
    }

    /// The instructions emitted so far.
    pub open spec fn instrs(&self) -> Seq<Instr> {
        quads_view(self.code@)
    }

    /// Whether `self` is what `before` becomes by emitting `code`, which
    /// introduces temporaries of the types `tmps` and leaves `lbl` as the
    /// first unused label.
    pub open spec fn follows(
        &self,
        before: Emitter,
        code: Seq<Instr>,
        tmps: Seq<Variable3ACType>,
        lbl: nat,
    ) -> bool {
        &&& self.wf()
        &&& self.instrs() == before.instrs() + code
        &&& self.tmps@ == before.tmps@ + tmps
        &&& self.counts.lbl == lbl
    }

    /// Whether `self` is what `before` becomes by emitting `code` for a
    /// function of its own: the temporaries of `before` are dropped, those
    /// of the function are `tmps`, and `lbl` is the first unused label.
    pub open spec fn begins(
        &self,
        before: Emitter,
        code: Seq<Instr>,
        tmps: Seq<Variable3ACType>,
        lbl: nat,
    ) -> bool {
        &&& self.wf()
        &&& self.instrs() == before.instrs() + code
        &&& self.tmps@ == tmps
        &&& self.counts.lbl == lbl
    }

    /// A generator that has emitted nothing.
    pub fn new() -> (em: Emitter)
        ensures
            em.wf(),
            em.instrs() == Seq::<Instr>::empty(),
            em.tmps@ == Seq::<Variable3ACType>::empty(),
            em.counts.lbl == 0,
    {
        let em = Emitter { code: Vec::new(), tmps: Vec::new(), counts: Counter { lbl: 0, tmp: 0 } };
        proof {
            assert(em.instrs() =~= Seq::<Instr>::empty());
        }
        em
    }

    /// Appends one instruction.
    pub fn emit(&mut self, q: Quad<String>)
        requires
            old(self).wf(),
        ensures
            final(self).follows(*old(self), seq![q@], seq![], old(self).counts.lbl as nat),
            final(self).instrs() == old(self).instrs().push(q@),
            final(self).code@.len() == old(self).code@.len() + 1,
            final(self).tmps == old(self).tmps,
            final(self).counts == old(self).counts,
    {
        self.code.push(q);
        proof {
            assert(final(self).instrs() =~= old(self).instrs().push(q@));
            assert(final(self).instrs() =~= old(self).instrs() + seq![q@]);
            assert(final(self).tmps@ =~= old(self).tmps@ + Seq::<Variable3ACType>::empty());
        }
    }

    /// Takes the first unused label into use, after an instruction that
    /// names it has been emitted.
    pub fn take_label(&mut self)
        requires
            old(self).counts.lbl < old(self).code@.len(),
            old(self).counts.tmp == old(self).tmps@.len(),
        ensures
            final(self).wf(),
            final(self).code == old(self).code,
            final(self).tmps == old(self).tmps,
            final(self).counts.lbl == old(self).counts.lbl + 1,
    {
        let n = self.code.len();
        self.counts.lbl = self.counts.lbl + 1;
    }

    /// Introduces a temporary of the type `ty` and gives back its number.
    pub fn fresh_tmp(&mut self, ty: Variable3ACType) -> (t: usize)
        requires
            old(self).wf(),
        ensures
            final(self).wf(),
            t == old(self).tmps@.len(),
            final(self).tmps@ == old(self).tmps@.push(ty),
            final(self).code == old(self).code,
            final(self).counts.lbl == old(self).counts.lbl,
    {
        let t = self.tmps.len();
        self.tmps.push(ty);
        self.counts.tmp = self.tmps.len();
        t
    }
}

/// The storage type of a value of the type `t`.
pub fn storage_of(t: &Type) -> (r: Variable3ACType)
    ensures
        r == storage_type(*t),
{
    match &*t.kind {
        TypeKind::Prim(PrimType::Bool) => Variable3ACType::Bool,
        TypeKind::Prim(PrimType::String) => Variable3ACType::String,
        _ => Variable3ACType::Int,
    }
}

/// The storage type of the temporary for a node whose type slot is `slot`.
pub fn tmp_type_of(slot: &Option<Box<Type>>) -> (r: Variable3ACType)
    ensures
        r == tmp_type(unbox_slot(*slot)),
{
    match slot {
        Some(t) => storage_of(t),
        None => Variable3ACType::Int,
    }
}

/// The index of the first string of the pool that is `s`, or the length of
/// the pool when there is none.
pub fn id_from_string(pool: &Vec<String>, s: &String) -> (r: usize)
    ensures
        r == pool_index(strings_view(pool@), s@, 0),
{
    let mut i: usize = 0;
    while i < pool.len()
        invariant
            i <= pool@.len(),
            pool_index(strings_view(pool@), s@, 0) == pool_index(strings_view(pool@), s@, i as int),
        decreases pool@.len() - i,
    {
        if pool[i] == *s {
            return i;
        }
        i += 1;
    }
    i
}

/// The variable that a location names.
pub fn place_of(l: &Loc) -> (p: Place<String>)
    ensures
        p@ == Place::<Seq<char>>::Var(l.spec_name()),
{
    Place::Var(l.name())
}

/// A copy of an operand.
pub fn copy_operand(o: &Operand<String>) -> (r: Operand<String>)
    ensures
        r@ == o@,
{
    match o {
        Operand::Lit(n) => Operand::Lit(*n),
        Operand::True => Operand::True,
        Operand::False => Operand::False,
        Operand::Magic => Operand::Magic,
        Operand::Str(i) => Operand::Str(*i),
        Operand::Sym(Place::Var(s)) => Operand::Sym(Place::Var(s.clone())),
        Operand::Sym(Place::Tmp(i)) => Operand::Sym(Place::Tmp(*i)),
    }
}

/// Emits the code of an expression and gives back the operand that holds
/// its value.
#[verifier::spinoff_prover]
pub fn lower_exp(e: &Exp, pool: &Vec<String>, em: &mut Emitter) -> (v: Operand<String>)
    requires
        old(em).wf(),
    ensures
        final(em).follows(
            *old(em),
            exp_code(*e, strings_view(pool@), old(em).tmps@.len()).code,
            exp_code(*e, strings_view(pool@), old(em).tmps@.len()).tmps,
            old(em).counts.lbl as nat,
        ),
        v@ == exp_code(*e, strings_view(pool@), old(em).tmps@.len()).value,
    decreases e, 1nat,
{
    proof {
        assert(em.instrs() =~= em.instrs() + Seq::<Instr>::empty());
        assert(em.tmps@ =~= em.tmps@ + Seq::<Variable3ACType>::empty());
    }
    match &*e.kind {
        ExpKind::True => Operand::True,
        ExpKind::False => Operand::False,
        ExpKind::Magic => Operand::Magic,
        ExpKind::IntLit(n) => Operand::Lit(*n),
        ExpKind::StrLit(s) => Operand::Str(id_from_string(pool, s)),
        ExpKind::Loc(l) => Operand::Sym(place_of(l)),
        ExpKind::UnaryExp(u) => lower_unary(u, pool, em),
        ExpKind::BinaryExp(b) => lower_binary(b, pool, em),
        ExpKind::CallExp(c) => lower_call_value(c, pool, em),
    }
}

/// Emits the code of a unary operation.
#[verifier::spinoff_prover]
pub fn lower_unary(u: &UnaryExp, pool: &Vec<String>, em: &mut Emitter) -> (v: Operand<String>)
    requires
        old(em).wf(),
    ensures
        final(em).follows(
            *old(em),
            unary_code(*u, strings_view(pool@), old(em).tmps@.len()).code,
            unary_code(*u, strings_view(pool@), old(em).tmps@.len()).tmps,
            old(em).counts.lbl as nat,
        ),
        v@ == unary_code(*u, strings_view(pool@), old(em).tmps@.len()).value,
    decreases u, 0nat,
{
    let a = lower_exp(&u.exp, pool, em);
    let t = em.fresh_tmp(tmp_type_of(&u.expr_type));
    em.emit(Quad::Unary { dest: Place::Tmp(t), op: *u.kind, src: a });
    proof {
        let spec = unary_code(*u, strings_view(pool@), old(em).tmps@.len());
        assert(em.instrs() =~= old(em).instrs() + spec.code);
        assert(em.tmps@ =~= old(em).tmps@ + spec.tmps);
    }
    Operand::Sym(Place::Tmp(t))
}

/// Emits the code of a binary operation.
#[verifier::spinoff_prover]
pub fn lower_binary(b: &BinaryExp, pool: &Vec<String>, em: &mut Emitter) -> (v: Operand<String>)
    requires
        old(em).wf(),
    ensures
        final(em).follows(
            *old(em),
            binary_code(*b, strings_view(pool@), old(em).tmps@.len()).code,
            binary_code(*b, strings_view(pool@), old(em).tmps@.len()).tmps,
            old(em).counts.lbl as nat,
        ),
        v@ == binary_code(*b, strings_view(pool@), old(em).tmps@.len()).value,
    decreases b, 0nat,
{
    let l = lower_exp(&b.lhs, pool, em);
    let r = lower_exp(&b.rhs, pool, em);
    let t = em.fresh_tmp(tmp_type_of(&b.expr_type));
    em.emit(Quad::Binary { dest: Place::Tmp(t), lhs: l, op: *b.kind, rhs: r });
    proof {
        let spec = binary_code(*b, strings_view(pool@), old(em).tmps@.len());
        assert(em.instrs() =~= old(em).instrs() + spec.code);
        assert(em.tmps@ =~= old(em).tmps@ + spec.tmps);
    }
    Operand::Sym(Place::Tmp(t))
}

/// The views of a list of operands.
pub open spec fn operands_view(v: Seq<Operand<String>>) -> Seq<Value> {
    Seq::new(v.len(), |i: int| v[i]@)
}

/// Emits the code of a call whose value is not used.
#[verifier::spinoff_prover]
pub fn lower_call(c: &CallExp, pool: &Vec<String>, em: &mut Emitter)
    requires
        old(em).wf(),
    ensures
        final(em).follows(
            *old(em),
            call_code(*c, strings_view(pool@), old(em).tmps@.len()).code,
            call_code(*c, strings_view(pool@), old(em).tmps@.len()).tmps,
            old(em).counts.lbl as nat,
        ),
    decreases c, 0nat,
{
    let ghost p = strings_view(pool@);
    let ghost base = old(em).tmps@.len();
    let mut values: Vec<Operand<String>> = Vec::new();
    let n = c.args.len();
    let mut i: usize = 0;
    proof {
        assert(em.instrs() =~= old(em).instrs() + args_code(c.args@, p, base, 0).code);
        assert(em.tmps@ =~= old(em).tmps@ + args_code(c.args@, p, base, 0).tmps);
        assert(operands_view(values@) =~= args_code(c.args@, p, base, 0).values);
    }
    while i < n
        invariant
            i <= n,
            n == c.args@.len(),
            p == strings_view(pool@),
            base == old(em).tmps@.len(),
            em.follows(
                *old(em),
                args_code(c.args@, p, base, i as int).code,
                args_code(c.args@, p, base, i as int).tmps,
                old(em).counts.lbl as nat,
            ),
            operands_view(values@) == args_code(c.args@, p, base, i as int).values,
            values@.len() == i,
        decreases n - i,
    {
        let v = lower_exp(&c.args[i], pool, em);
        values.push(v);
        proof {
            let next = args_code(c.args@, p, base, i + 1);
            assert(em.instrs() =~= old(em).instrs() + next.code);
            assert(em.tmps@ =~= old(em).tmps@ + next.tmps);
            assert(operands_view(values@) =~= next.values);
        }
        i += 1;
    }
    let ghost a = args_code(c.args@, p, base, n as int);
    let ghost mid = em.instrs();
    let mut j: usize = 0;
    proof {
        assert(a.values.len() == operands_view(values@).len());
        assert(em.instrs() =~= mid + setargs(a.values, 0));
    }
    while j < n
        invariant
            j <= n,
            n == values@.len(),
            a.values == operands_view(values@),
            a.values.len() == n,
            em.wf(),
            em.tmps@ == old(em).tmps@ + a.tmps,
            em.counts.lbl == old(em).counts.lbl,
            em.instrs() == mid + setargs(a.values, j as int),
        decreases n - j,
    {
        em.emit(Quad::SetArg { index: j + 1, src: copy_operand(&values[j]) });
        proof {
            assert(em.instrs() =~= mid + setargs(a.values, j + 1));
        }
        j += 1;
    }
    em.emit(Quad::Call { name: c.name.name() });
    proof {
        let spec = call_code(*c, p, base);
        assert(a.values.len() == c.args@.len());
        assert(em.instrs() =~= old(em).instrs() + spec.code);
    }
}

/// Emits the code of a call used as a value.
#[verifier::spinoff_prover]
pub fn lower_call_value(c: &CallExp, pool: &Vec<String>, em: &mut Emitter) -> (v: Operand<String>)
    requires
        old(em).wf(),
    ensures
        final(em).follows(
            *old(em),
            call_value_code(*c, strings_view(pool@), old(em).tmps@.len()).code,
            call_value_code(*c, strings_view(pool@), old(em).tmps@.len()).tmps,
            old(em).counts.lbl as nat,
        ),
        v@ == call_value_code(*c, strings_view(pool@), old(em).tmps@.len()).value,
    decreases c, 1nat,
{
    lower_call(c, pool, em);
    let ty = match &c.fn_type {
        Some(t) => storage_of(t),
        None => Variable3ACType::Int,
    };
    let t = em.fresh_tmp(ty);
    em.emit(Quad::GetRet { dest: Place::Tmp(t) });
    proof {
        let spec = call_value_code(*c, strings_view(pool@), old(em).tmps@.len());
        assert(em.instrs() =~= old(em).instrs() + spec.code);
        assert(em.tmps@ =~= old(em).tmps@ + spec.tmps);
    }
    Operand::Sym(Place::Tmp(t))
}

/// Emits the code of a variable declaration in a function.
#[verifier::spinoff_prover]
pub fn lower_var_decl(v: &VarDecl, pool: &Vec<String>, em: &mut Emitter)
    requires
        old(em).wf(),
    ensures
        final(em).follows(
            *old(em),
            var_decl_code(*v, strings_view(pool@), old(em).tmps@.len()).code,
            var_decl_code(*v, strings_view(pool@), old(em).tmps@.len()).tmps,
            old(em).counts.lbl as nat,
        ),
{
    proof {
        assert(em.instrs() =~= em.instrs() + Seq::<Instr>::empty());
        assert(em.tmps@ =~= em.tmps@ + Seq::<Variable3ACType>::empty());
    }
    match &v.init_val {
        Some(e) => {
            match &*v.var_type.kind {
                TypeKind::Prim(_) => {
                    let a = lower_exp(e, pool, em);
                    em.emit(Quad::Assign { dest: Place::Var(v.id.name.clone()), src: a });
                    proof {
                        let spec = var_decl_code(*v, strings_view(pool@), old(em).tmps@.len());
                        assert(em.instrs() =~= old(em).instrs() + spec.code);
                        assert(em.tmps@ =~= old(em).tmps@ + spec.tmps);
                    }
                },
                TypeKind::Class(_) => {},
            }
        },
        None => {},
    }
}

/// Emits the code of a line statement, in a function whose exit label is
/// `exit`.
#[verifier::spinoff_prover]
pub fn lower_line(s: &LineStmt, pool: &Vec<String>, em: &mut Emitter, exit: usize)
    requires
        old(em).wf(),
    ensures
        final(em).follows(
            *old(em),
            line_code(*s, strings_view(pool@), old(em).tmps@.len(), exit as nat).code,
            line_code(*s, strings_view(pool@), old(em).tmps@.len(), exit as nat).tmps,
            old(em).counts.lbl as nat,
        ),
{
    let ghost spec = line_code(*s, strings_view(pool@), old(em).tmps@.len(), exit as nat);
    match &*s.kind {
        LineStmtKind::Assign { dest, src } => {
            let a = lower_exp(src, pool, em);
            em.emit(Quad::Assign { dest: place_of(dest), src: a });
        },
        LineStmtKind::PostDec { loc } => {
            em.emit(
                Quad::Binary {
                    dest: place_of(loc),
                    lhs: Operand::Sym(place_of(loc)),
                    op: BinaryExpKind::Minus,
                    rhs: Operand::Lit(1),
                },
            );
        },
        LineStmtKind::PostInc { loc } => {
            em.emit(
                Quad::Binary {
                    dest: place_of(loc),
                    lhs: Operand::Sym(place_of(loc)),
                    op: BinaryExpKind::Plus,
                    rhs: Operand::Lit(1),
                },
            );
        },
        LineStmtKind::Give { output } => {
            let a = lower_exp(output, pool, em);
            em.emit(Quad::Write { src: a });
        },
        LineStmtKind::Take { recipient } => {
            em.emit(Quad::Read { dest: place_of(recipient) });
        },
        LineStmtKind::Return { result } => {
            match result {
                Some(e) => {
                    let a = lower_exp(e, pool, em);
                    em.emit(Quad::SetRet { src: a });
                    em.emit(Quad::Goto { target: exit });
                },
                None => {
                    em.emit(Quad::Goto { target: exit });
                },
            }
        },
        LineStmtKind::Exit => {
            em.emit(Quad::Exit);
        },
        LineStmtKind::Call(c) => {
            lower_call(c, pool, em);
        },
    }
    proof {
        assert(em.instrs() =~= old(em).instrs() + spec.code);
        assert(em.tmps@ =~= old(em).tmps@ + spec.tmps);
    }
}

/// Emits the code of a statement, in a function whose exit label is
/// `exit`.
#[verifier::spinoff_prover]
pub fn lower_stmt(s: &Stmt, pool: &Vec<String>, em: &mut Emitter, exit: usize)
    requires
        old(em).wf(),
    ensures
        final(em).follows(
            *old(em),
            stmt_code(
                *s,
                strings_view(pool@),
                old(em).tmps@.len(),
                old(em).counts.lbl as nat,
                exit as nat,
            ).code,
            stmt_code(
                *s,
                strings_view(pool@),
                old(em).tmps@.len(),
                old(em).counts.lbl as nat,
                exit as nat,
            ).tmps,
            stmt_code(
                *s,
                strings_view(pool@),
                old(em).tmps@.len(),
                old(em).counts.lbl as nat,
                exit as nat,
            ).lbl,
        ),
    decreases s, 2nat,
{
    match s {
        Stmt::Block(b) => {
            lower_block(b, pool, em, exit);
        },
        Stmt::Line(l) => {
            lower_line(l, pool, em, exit);
        },
        Stmt::VarDecl(v) => {
            lower_var_decl(v, pool, em);
        },
    }
}

/// Emits the code of a body, in a function whose exit label is `exit`.
#[verifier::spinoff_prover]
pub fn lower_body(ss: &Vec<Box<Stmt>>, pool: &Vec<String>, em: &mut Emitter, exit: usize)
    requires
        old(em).wf(),
    ensures
        final(em).follows(
            *old(em),
            body_code(
                ss@,
                strings_view(pool@),
                old(em).tmps@.len(),
                old(em).counts.lbl as nat,
                exit as nat,
            ).code,
            body_code(
                ss@,
                strings_view(pool@),
                old(em).tmps@.len(),
                old(em).counts.lbl as nat,
                exit as nat,
            ).tmps,
            body_code(
                ss@,
                strings_view(pool@),
                old(em).tmps@.len(),
                old(em).counts.lbl as nat,
                exit as nat,
            ).lbl,
        ),
    decreases ss, 3nat,
{
    let ghost p = strings_view(pool@);
    let ghost base = old(em).tmps@.len();
    let ghost lbl = old(em).counts.lbl as nat;
    let n = ss.len();
    let mut i: usize = 0;
    proof {
        assert(em.instrs() =~= old(em).instrs() + stmts_code(ss@, p, base, lbl, exit as nat, 0).code);
        assert(em.tmps@ =~= old(em).tmps@ + stmts_code(ss@, p, base, lbl, exit as nat, 0).tmps);
    }
    while i < n
        invariant
            i <= n,
            n == ss@.len(),
            p == strings_view(pool@),
            base == old(em).tmps@.len(),
            lbl == old(em).counts.lbl as nat,
            em.follows(
                *old(em),
                stmts_code(ss@, p, base, lbl, exit as nat, i as int).code,
                stmts_code(ss@, p, base, lbl, exit as nat, i as int).tmps,
                stmts_code(ss@, p, base, lbl, exit as nat, i as int).lbl,
            ),
        decreases n - i,
    {
        let ghost before = stmts_code(ss@, p, base, lbl, exit as nat, i as int);
        proof {
            assert(em.tmps@.len() == base + before.tmps.len());
        }
        lower_stmt(&ss[i], pool, em, exit);
        proof {
            let next = stmts_code(ss@, p, base, lbl, exit as nat, i + 1);
            assert(em.instrs() =~= old(em).instrs() + next.code);
            assert(em.tmps@ =~= old(em).tmps@ + next.tmps);
        }
        i += 1;
    }
}

/// Emits the code of an `if` without `else`.
#[verifier::rlimit(40)]
#[verifier::spinoff_prover]
pub fn lower_if(b: &BlockStmt, pool: &Vec<String>, em: &mut Emitter, exit: usize)
    requires
        old(em).wf(),
        b is If,
    ensures
        final(em).follows(
            *old(em),
            block_code(
                *b,
                strings_view(pool@),
                old(em).tmps@.len(),
                old(em).counts.lbl as nat,
                exit as nat,
            ).code,
            block_code(
                *b,
                strings_view(pool@),
                old(em).tmps@.len(),
                old(em).counts.lbl as nat,
                exit as nat,
            ).tmps,
            block_code(
                *b,
                strings_view(pool@),
                old(em).tmps@.len(),
                old(em).counts.lbl as nat,
                exit as nat,
            ).lbl,
        ),
    decreases b, 0nat,
{
    let ghost p = strings_view(pool@);
    let ghost base = old(em).tmps@.len();
    let ghost lbl = old(em).counts.lbl as nat;
    let ghost spec = block_code(*b, p, base, lbl, exit as nat);
    match b {
        BlockStmt::If { cond, body } => {
            let c = lower_exp(cond, pool, em);
            let after = em.counts.lbl;
            em.emit(Quad::Ifz { cond: c, target: after });
            em.take_label();
            let ghost m1 = em.instrs();
            proof {
                let cc = exp_code(**cond, p, base);
                assert(em.tmps@.len() == base + cc.tmps.len());
                assert(m1 =~= old(em).instrs() + cc.code.push(
                    Quad::Ifz { cond: cc.value, target: after },
                ));
            }
            lower_body(body, pool, em, exit);
            em.emit(Quad::Label { label: after });
        },
        _ => {},
    }
    proof {
        assert(em.instrs() =~= old(em).instrs() + spec.code);
        assert(em.tmps@ =~= old(em).tmps@ + spec.tmps);
    }
}

/// Emits the code of a `while`.
#[verifier::rlimit(40)]
#[verifier::spinoff_prover]
pub fn lower_while(b: &BlockStmt, pool: &Vec<String>, em: &mut Emitter, exit: usize)
    requires
        old(em).wf(),
        b is While,
    ensures
        final(em).follows(
            *old(em),
            block_code(
                *b,
                strings_view(pool@),
                old(em).tmps@.len(),
                old(em).counts.lbl as nat,
                exit as nat,
            ).code,
            block_code(
                *b,
                strings_view(pool@),
                old(em).tmps@.len(),
                old(em).counts.lbl as nat,
                exit as nat,
            ).tmps,
            block_code(
                *b,
                strings_view(pool@),
                old(em).tmps@.len(),
                old(em).counts.lbl as nat,
                exit as nat,
            ).lbl,
        ),
    decreases b, 0nat,
{
    let ghost p = strings_view(pool@);
    let ghost base = old(em).tmps@.len();
    let ghost lbl = old(em).counts.lbl as nat;
    let ghost spec = block_code(*b, p, base, lbl, exit as nat);
    match b {
        BlockStmt::While { cond, body } => {
            let head = em.counts.lbl;
            em.emit(Quad::Label { label: head });
            em.take_label();
            let c = lower_exp(cond, pool, em);
            let after = em.counts.lbl;
            em.emit(Quad::Ifz { cond: c, target: after });
            em.take_label();
            let ghost m1 = em.instrs();
            proof {
                let cc = exp_code(**cond, p, base);
                assert(em.tmps@.len() == base + cc.tmps.len());
                assert(m1 =~= old(em).instrs() + (seq![Quad::Label { label: head }] + cc.code).push(
                    Quad::Ifz { cond: cc.value, target: after },
                ));
            }
            lower_body(body, pool, em, exit);
            em.emit(Quad::Goto { target: head });
            em.emit(Quad::Label { label: after });
        },
        _ => {},
    }
    proof {
        assert(em.instrs() =~= old(em).instrs() + spec.code);
        assert(em.tmps@ =~= old(em).tmps@ + spec.tmps);
    }
}

/// Emits the code of an `if` with `else`.
#[verifier::rlimit(60)]
#[verifier::spinoff_prover]
pub fn lower_if_else(b: &BlockStmt, pool: &Vec<String>, em: &mut Emitter, exit: usize)
    requires
        old(em).wf(),
        b is IfElse,
    ensures
        final(em).follows(
            *old(em),
            block_code(
                *b,
                strings_view(pool@),
                old(em).tmps@.len(),
                old(em).counts.lbl as nat,
                exit as nat,
            ).code,
            block_code(
                *b,
                strings_view(pool@),
                old(em).tmps@.len(),
                old(em).counts.lbl as nat,
                exit as nat,
            ).tmps,
            block_code(
                *b,
                strings_view(pool@),
                old(em).tmps@.len(),
                old(em).counts.lbl as nat,
                exit as nat,
            ).lbl,
        ),
    decreases b, 0nat,
{
    let ghost p = strings_view(pool@);
    let ghost base = old(em).tmps@.len();
    let ghost lbl = old(em).counts.lbl as nat;
    let ghost spec = block_code(*b, p, base, lbl, exit as nat);
    match b {
        BlockStmt::IfElse { cond, true_branch, false_branch } => {
            let ghost o = old(em).instrs();
            let ghost cc = exp_code(**cond, p, base);
            let ghost t = body_code(true_branch@, p, base + cc.tmps.len(), lbl + 1, exit as nat);
            let ghost f = body_code(
                false_branch@,
                p,
                base + cc.tmps.len() + t.tmps.len(),
                t.lbl + 1,
                exit as nat,
            );
            let c = lower_exp(cond, pool, em);
            let other = em.counts.lbl;
            em.emit(Quad::Ifz { cond: c, target: other });
            em.take_label();
            let ghost s1 = cc.code.push(Quad::Ifz { cond: cc.value, target: other });
            proof {
                assert(em.tmps@.len() == base + cc.tmps.len());
                assert(em.instrs() =~= o + s1);
            }
            lower_body(true_branch, pool, em, exit);
            let ghost s2 = s1 + t.code;
            proof {
                assert(em.instrs() =~= o + s2);
                assert(em.tmps@ =~= old(em).tmps@ + (cc.tmps + t.tmps));
            }
            let after = em.counts.lbl;
            em.emit(Quad::Goto { target: after });
            em.take_label();
            em.emit(Quad::Label { label: other });
            let ghost s3 = s2.push(Quad::Goto { target: after }).push(Quad::Label { label: other });
            proof {
                assert(em.tmps@.len() == base + cc.tmps.len() + t.tmps.len());
                assert(em.instrs() =~= o + s3);
            }
            lower_body(false_branch, pool, em, exit);
            let ghost s4 = s3 + f.code;
            proof {
                assert(em.instrs() =~= o + s4);
                assert(em.tmps@ =~= old(em).tmps@ + (cc.tmps + t.tmps + f.tmps));
            }
            em.emit(Quad::Label { label: after });
            proof {
                assert(em.instrs() =~= o + s4.push(Quad::Label { label: after }));
                assert(spec.code == s4.push(Quad::Label { label: after }));
                assert(spec.tmps == cc.tmps + t.tmps + f.tmps);
            }
        },
        _ => {},
    }
}

/// Emits the code of a block statement, in a function whose exit label is
/// `exit`.
#[verifier::spinoff_prover]
pub fn lower_block(b: &BlockStmt, pool: &Vec<String>, em: &mut Emitter, exit: usize)
    requires
        old(em).wf(),
    ensures
        final(em).follows(
            *old(em),
            block_code(
                *b,
                strings_view(pool@),
                old(em).tmps@.len(),
                old(em).counts.lbl as nat,
                exit as nat,
            ).code,
            block_code(
                *b,
                strings_view(pool@),
                old(em).tmps@.len(),
                old(em).counts.lbl as nat,
                exit as nat,
            ).tmps,
            block_code(
                *b,
                strings_view(pool@),
                old(em).tmps@.len(),
                old(em).counts.lbl as nat,
                exit as nat,
            ).lbl,
        ),
    decreases b, 1nat,
{
    match b {
        BlockStmt::If { .. } => {
            lower_if(b, pool, em, exit);
        },
        BlockStmt::While { .. } => {
            lower_while(b, pool, em, exit);
        },
        BlockStmt::IfElse { .. } => {
            lower_if_else(b, pool, em, exit);
        },
    }
}

/// Emits the code of a function: its entry, the stores of its arguments,
/// its body, and its one exit under the label that was the first unused
/// one. The temporaries are counted anew from zero: those of the function
/// before are dropped on entry.
#[verifier::spinoff_prover]
pub fn lower_fn(f: &FnDecl, pool: &Vec<String>, em: &mut Emitter)
    requires
        old(em).wf(),
    ensures
        final(em).begins(
            *old(em),
            fn_code(*f, strings_view(pool@), old(em).counts.lbl as nat).code,
            fn_code(*f, strings_view(pool@), old(em).counts.lbl as nat).tmps,
            fn_code(*f, strings_view(pool@), old(em).counts.lbl as nat).lbl,
        ),
{
    let ghost p = strings_view(pool@);
    let ghost lbl = old(em).counts.lbl as nat;
    let ghost spec = fn_code(*f, p, lbl);
    let exit = em.counts.lbl;
    em.tmps = Vec::new();
    em.counts.tmp = 0;
    proof {
        assert(em.instrs() == old(em).instrs());
    }
    em.emit(Quad::Enter { name: f.id.name.clone() });
    em.take_label();
    let ghost mid = em.instrs();
    let n = f.args.len();
    let mut i: usize = 0;
    proof {
        assert(mid =~= mid + getargs(f.args@, 0));
    }
    while i < n
        invariant
            i <= n,
            n == f.args@.len(),
            em.wf(),
            em.tmps@.len() == 0,
            em.counts.lbl == lbl + 1,
            em.instrs() == mid + getargs(f.args@, i as int),
        decreases n - i,
    {
        em.emit(
            Quad::GetArg { index: i + 1, dest: Place::Var(name_of_formal(&f.args[i]).clone()) },
        );
        proof {
            assert(em.instrs() =~= mid + getargs(f.args@, i + 1));
        }
        i += 1;
    }
    lower_body(&f.body, pool, em, exit);
    em.emit(Quad::Leave { label: exit, name: f.id.name.clone() });
    proof {
        assert(em.instrs() =~= old(em).instrs() + spec.code);
        assert(em.tmps@ =~= spec.tmps);
    }
}

} // verus!
