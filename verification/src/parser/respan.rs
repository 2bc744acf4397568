//! Turning the spans of a whole syntax tree from byte offsets into rows
//! and columns.

use vstd::prelude::*;
use vstd::string::*;
use crate::parser::ast::{
    BinaryExp,
    BlockStmt,
    CallExp,
    ClassDecl,
    Decl,
    Exp,
    ExpKind,
    FnDecl,
    FormalDecl,
    Id,
    LineStmt,
    LineStmtKind,
    Loc,
    LocKind,
    Program,
    Stmt,
    Type,
    TypeKind,
    UnaryExp,
    VarDecl,
};

verus! {

/// Whether `r` is the identifier `o` with its span corrected.
pub open spec fn id_corrected(o: Id, lines: Seq<usize>, r: Id) -> bool {
    r == (Id { span: o.span.spec_correct(lines), ..o })
}

/// Whether `r` is the type `o` with the span of its class name, if it has
/// one, corrected.
pub open spec fn type_corrected(o: Type, lines: Seq<usize>, r: Type) -> bool {
    &&& r.perfect == o.perfect
    &&& match *o.kind {
        TypeKind::Prim(_) => r.kind == o.kind,
        TypeKind::Class(id) => *r.kind matches TypeKind::Class(id2) && id_corrected(
            *id,
            lines,
            *id2,
        ),
    }
}

/// Whether `r` is the location `o` with every span corrected.
pub open spec fn loc_corrected(o: Loc, lines: Seq<usize>, r: Loc) -> bool
    decreases o,
{
    &&& r.span == o.span.spec_correct(lines)
    &&& r.loc_type == o.loc_type
    &&& match *o.kind {
        LocKind::Id(id) => *r.kind matches LocKind::Id(id2) && id_corrected(*id, lines, *id2),
        LocKind::Loc { base_class, field_name } => *r.kind matches LocKind::Loc {
            base_class: b2,
            field_name: f2,
        } && loc_corrected(*base_class, lines, *b2) && id_corrected(*field_name, lines, *f2),
    }
}

/// Whether `r` is the expression `o` with every span corrected.
pub open spec fn exp_corrected(o: Exp, lines: Seq<usize>, r: Exp) -> bool
    decreases o, 1nat,
{
    &&& r.span == o.span.spec_correct(lines)
    &&& r.expr_type == o.expr_type
    &&& match *o.kind {
        ExpKind::UnaryExp(u) => *r.kind matches ExpKind::UnaryExp(u2) && unary_corrected(
            *u,
            lines,
            *u2,
        ),
        ExpKind::BinaryExp(b) => *r.kind matches ExpKind::BinaryExp(b2) && binary_corrected(
            *b,
            lines,
            *b2,
        ),
        ExpKind::CallExp(c) => *r.kind matches ExpKind::CallExp(c2) && call_corrected(
            *c,
            lines,
            *c2,
        ),
        ExpKind::Loc(l) => *r.kind matches ExpKind::Loc(l2) && loc_corrected(*l, lines, *l2),
        _ => r.kind == o.kind,
    }
}

/// Whether `r` is the unary operation `o` with every span corrected.
pub open spec fn unary_corrected(o: UnaryExp, lines: Seq<usize>, r: UnaryExp) -> bool
    decreases o, 0nat,
{
    &&& r.span == o.span.spec_correct(lines)
    &&& r.kind == o.kind
    &&& r.expr_type == o.expr_type
    &&& exp_corrected(*o.exp, lines, *r.exp)
}

/// Whether `r` is the binary operation `o` with every span corrected.
pub open spec fn binary_corrected(o: BinaryExp, lines: Seq<usize>, r: BinaryExp) -> bool
    decreases o, 0nat,
{
    &&& r.span == o.span.spec_correct(lines)
    &&& r.kind == o.kind
    &&& r.expr_type == o.expr_type
    &&& exp_corrected(*o.lhs, lines, *r.lhs)
    &&& exp_corrected(*o.rhs, lines, *r.rhs)
}

/// Whether `rs` are the expressions `os` with every span corrected.
pub open spec fn exps_corrected(os: Seq<Box<Exp>>, lines: Seq<usize>, rs: Seq<Box<Exp>>) -> bool
    decreases os, 0nat,
{
    &&& rs.len() == os.len()
    &&& forall|i: int| 0 <= i < os.len() ==> exp_corrected(*#[trigger] os[i], lines, *rs[i])
}

/// Whether `r` is the call `o` with every span corrected.
pub open spec fn call_corrected(o: CallExp, lines: Seq<usize>, r: CallExp) -> bool
    decreases o, 0nat,
{
    &&& r.span == o.span.spec_correct(lines)
    &&& r.fn_type == o.fn_type
    &&& loc_corrected(*o.name, lines, *r.name)
    &&& exps_corrected(o.args@, lines, r.args@)
}

/// Whether `r` is the variable declaration `o` with every span corrected.
pub open spec fn var_decl_corrected(o: VarDecl, lines: Seq<usize>, r: VarDecl) -> bool {
    &&& type_corrected(*o.var_type, lines, *r.var_type)
    &&& id_corrected(*o.id, lines, *r.id)
    &&& match o.init_val {
        Some(e) => r.init_val matches Some(e2) && exp_corrected(*e, lines, *e2),
        None => r.init_val is None,
    }
}

/// Whether `r` is the line statement `o` with every span corrected.
pub open spec fn line_corrected(o: LineStmt, lines: Seq<usize>, r: LineStmt) -> bool {
    &&& r.span == o.span.spec_correct(lines)
    &&& match *o.kind {
        LineStmtKind::Assign { dest, src } => *r.kind matches LineStmtKind::Assign {
            dest: d2,
            src: s2,
        } && loc_corrected(*dest, lines, *d2) && exp_corrected(*src, lines, *s2),
        LineStmtKind::PostDec { loc } => *r.kind matches LineStmtKind::PostDec { loc: l2 }
            && loc_corrected(*loc, lines, *l2),
        LineStmtKind::PostInc { loc } => *r.kind matches LineStmtKind::PostInc { loc: l2 }
            && loc_corrected(*loc, lines, *l2),
        LineStmtKind::Give { output } => *r.kind matches LineStmtKind::Give { output: o2 }
            && exp_corrected(*output, lines, *o2),
        LineStmtKind::Take { recipient } => *r.kind matches LineStmtKind::Take { recipient: l2 }
            && loc_corrected(*recipient, lines, *l2),
        LineStmtKind::Return { result } => match result {
            Some(e) => *r.kind matches LineStmtKind::Return { result: Some(e2) } && exp_corrected(
                *e,
                lines,
                *e2,
            ),
            None => r.kind == o.kind,
        },
        LineStmtKind::Exit => r.kind == o.kind,
        LineStmtKind::Call(c) => *r.kind matches LineStmtKind::Call(c2) && call_corrected(
            *c,
            lines,
            *c2,
        ),
    }
}

/// Whether `r` is the statement `o` with every span corrected.
pub open spec fn stmt_corrected(o: Stmt, lines: Seq<usize>, r: Stmt) -> bool
    decreases o, 1nat,
{
    match o {
        Stmt::Block(b) => r matches Stmt::Block(b2) && block_corrected(*b, lines, *b2),
        Stmt::Line(l) => r matches Stmt::Line(l2) && line_corrected(*l, lines, *l2),
        Stmt::VarDecl(v) => r matches Stmt::VarDecl(v2) && var_decl_corrected(*v, lines, *v2),
    }
}

/// Whether `rs` are the statements `os` with every span corrected.
pub open spec fn stmts_corrected(os: Seq<Box<Stmt>>, lines: Seq<usize>, rs: Seq<Box<Stmt>>) -> bool
    decreases os, 0nat,
{
    &&& rs.len() == os.len()
    &&& forall|i: int| 0 <= i < os.len() ==> stmt_corrected(*#[trigger] os[i], lines, *rs[i])
}

/// Whether `r` is the block statement `o` with every span corrected.
pub open spec fn block_corrected(o: BlockStmt, lines: Seq<usize>, r: BlockStmt) -> bool
    decreases o, 0nat,
{
    match o {
        BlockStmt::While { cond, body } => r matches BlockStmt::While { cond: c2, body: b2 }
            && exp_corrected(*cond, lines, *c2) && stmts_corrected(body@, lines, b2@),
        BlockStmt::If { cond, body } => r matches BlockStmt::If { cond: c2, body: b2 }
            && exp_corrected(*cond, lines, *c2) && stmts_corrected(body@, lines, b2@),
        BlockStmt::IfElse { cond, true_branch, false_branch } => r matches BlockStmt::IfElse {
            cond: c2,
            true_branch: t2,
            false_branch: f2,
        } && exp_corrected(*cond, lines, *c2) && stmts_corrected(true_branch@, lines, t2@)
            && stmts_corrected(false_branch@, lines, f2@),
    }
}

/// Whether `r` is the formal `o` with every span corrected.
pub open spec fn formal_corrected(o: FormalDecl, lines: Seq<usize>, r: FormalDecl) -> bool {
    match o {
        FormalDecl::VarDecl(v) => r matches FormalDecl::VarDecl(v2) && var_decl_corrected(
            v,
            lines,
            v2,
        ),
        FormalDecl::FormalDecl { id, formal_type } => r matches FormalDecl::FormalDecl {
            id: i2,
            formal_type: t2,
        } && id_corrected(*id, lines, *i2) && type_corrected(*formal_type, lines, *t2),
    }
}

/// Whether `rs` are the formals `os` with every span corrected.
pub open spec fn formals_corrected(
    os: Seq<Box<FormalDecl>>,
    lines: Seq<usize>,
    rs: Seq<Box<FormalDecl>>,
) -> bool {
    &&& rs.len() == os.len()
    &&& forall|i: int| 0 <= i < os.len() ==> formal_corrected(*#[trigger] os[i], lines, *rs[i])
}

/// Whether `r` is the function `o` with every span corrected.
pub open spec fn fn_corrected(o: FnDecl, lines: Seq<usize>, r: FnDecl) -> bool {
    &&& id_corrected(*o.id, lines, *r.id)
    &&& formals_corrected(o.args@, lines, r.args@)
    &&& type_corrected(*o.ret, lines, *r.ret)
    &&& stmts_corrected(o.body@, lines, r.body@)
}

/// Whether `r` is the declaration `o` with every span corrected.
pub open spec fn decl_corrected(o: Decl, lines: Seq<usize>, r: Decl) -> bool
    decreases o, 1nat,
{
    match o {
        Decl::VarDecl(v) => r matches Decl::VarDecl(v2) && var_decl_corrected(*v, lines, *v2),
        Decl::ClassDecl(c) => r matches Decl::ClassDecl(c2) && id_corrected(*c.id, lines, *c2.id)
            && decls_corrected(c.member_f@, lines, c2.member_f@),
        Decl::FnDecl(f) => r matches Decl::FnDecl(f2) && fn_corrected(*f, lines, *f2),
    }
}

/// Whether `rs` are the declarations `os` with every span corrected.
pub open spec fn decls_corrected(os: Seq<Box<Decl>>, lines: Seq<usize>, rs: Seq<Box<Decl>>) -> bool
    decreases os, 0nat,
{
    &&& rs.len() == os.len()
    &&& forall|i: int| 0 <= i < os.len() ==> decl_corrected(*#[trigger] os[i], lines, *rs[i])
}

/// Whether `r` is the program `o` with every span turned from byte
/// offsets into rows and columns, given the byte length of each line of
/// the source text.
pub open spec fn program_corrected(o: Program, lines: Seq<usize>, r: Program) -> bool {
    decls_corrected(o.globals@, lines, r.globals@)
}

/// Corrects the span of an identifier.
pub fn correct_id(id: &mut Id, lines: &Vec<usize>)
    ensures
        id_corrected(*old(id), lines@, *final(id)),
{
    id.span.correct(lines);
}

/// Corrects the span of the class name of a type.
pub fn correct_type(t: &mut Type, lines: &Vec<usize>)
    ensures
        type_corrected(*old(t), lines@, *final(t)),
{
    let is_class = match &*t.kind {
        TypeKind::Class(_) => true,
        TypeKind::Prim(_) => false,
    };
    if is_class {
        match &mut *t.kind {
            TypeKind::Class(id) => {
                correct_id(id, lines);
            },
            _ => {},
        }
    }
}

/// Corrects the spans of a location.
pub fn correct_loc(l: &mut Loc, lines: &Vec<usize>)
    ensures
        loc_corrected(*old(l), lines@, *final(l)),
    decreases *old(l),
{
    l.span.correct(lines);
    match &mut *l.kind {
        LocKind::Id(id) => {
            correct_id(id, lines);
        },
        LocKind::Loc { base_class, field_name } => {
            correct_loc(base_class, lines);
            correct_id(field_name, lines);
        },
    }
}

/// Corrects the spans of an expression.
pub fn correct_exp(e: &mut Exp, lines: &Vec<usize>)
    ensures
        exp_corrected(*old(e), lines@, *final(e)),
    decreases *old(e), 1nat,
{
    e.span.correct(lines);
    let plain = match &*e.kind {
        ExpKind::UnaryExp(_) => false,
        ExpKind::BinaryExp(_) => false,
        ExpKind::CallExp(_) => false,
        ExpKind::Loc(_) => false,
        _ => true,
    };
    if !plain {
        match &mut *e.kind {
            ExpKind::UnaryExp(u) => {
                correct_unary(u, lines);
            },
            ExpKind::BinaryExp(b) => {
                correct_binary(b, lines);
            },
            ExpKind::CallExp(c) => {
                correct_call(c, lines);
            },
            ExpKind::Loc(l) => {
                correct_loc(l, lines);
            },
            _ => {},
        }
    }
}

/// Corrects the spans of a unary operation.
pub fn correct_unary(u: &mut UnaryExp, lines: &Vec<usize>)
    ensures
        unary_corrected(*old(u), lines@, *final(u)),
    decreases *old(u), 0nat,
{
    u.span.correct(lines);
    correct_exp(&mut u.exp, lines);
}

/// Corrects the spans of a binary operation.
pub fn correct_binary(b: &mut BinaryExp, lines: &Vec<usize>)
    ensures
        binary_corrected(*old(b), lines@, *final(b)),
    decreases *old(b), 0nat,
{
    b.span.correct(lines);
    correct_exp(&mut b.lhs, lines);
    correct_exp(&mut b.rhs, lines);
}

/// Corrects the spans of a call.
pub fn correct_call(c: &mut CallExp, lines: &Vec<usize>)
    ensures
        call_corrected(*old(c), lines@, *final(c)),
    decreases *old(c), 0nat,
{
    let ghost orig = *c;
    c.span.correct(lines);
    correct_loc(&mut c.name, lines);
    let n = c.args.len();
    let mut i: usize = 0;
    while i < n
        invariant
            i <= n,
            n == c.args@.len(),
            n == orig.args@.len(),
            orig == *old(c),
            c.span == orig.span.spec_correct(lines@),
            c.fn_type == orig.fn_type,
            loc_corrected(*orig.name, lines@, *c.name),
            forall|j: int| 0 <= j < i ==> exp_corrected(*#[trigger] orig.args@[j], lines@, *c.args@[j]),
            forall|j: int| i <= j < n ==> c.args@[j] == orig.args@[j],
        decreases n - i,
    {
        proof {
            assert(c.args@[i as int] == orig.args@[i as int]);
            assert(decreases_to!(orig => orig.args));
            assert(decreases_to!(orig.args => orig.args@));
            assert(decreases_to!(orig.args@ => orig.args@[i as int]));
        }
        correct_exp(&mut c.args[i], lines);
        i += 1;
    }
}

/// Corrects the spans of a variable declaration.
pub fn correct_var_decl(v: &mut VarDecl, lines: &Vec<usize>)
    ensures
        var_decl_corrected(*old(v), lines@, *final(v)),
{
    correct_type(&mut v.var_type, lines);
    correct_id(&mut v.id, lines);
    if v.init_val.is_some() {
        match &mut v.init_val {
            Some(e) => {
                correct_exp(e, lines);
            },
            None => {},
        }
    }
}

/// Corrects the spans of a line statement.
pub fn correct_line(s: &mut LineStmt, lines: &Vec<usize>)
    ensures
        line_corrected(*old(s), lines@, *final(s)),
{
    s.span.correct(lines);
    let plain = match &*s.kind {
        LineStmtKind::Exit => true,
        LineStmtKind::Return { result } => result.is_none(),
        _ => false,
    };
    if !plain {
        match &mut *s.kind {
            LineStmtKind::Assign { dest, src } => {
                correct_loc(dest, lines);
                correct_exp(src, lines);
            },
            LineStmtKind::PostDec { loc } => {
                correct_loc(loc, lines);
            },
            LineStmtKind::PostInc { loc } => {
                correct_loc(loc, lines);
            },
            LineStmtKind::Give { output } => {
                correct_exp(output, lines);
            },
            LineStmtKind::Take { recipient } => {
                correct_loc(recipient, lines);
            },
            LineStmtKind::Return { result: Some(e) } => {
                correct_exp(e, lines);
            },
            LineStmtKind::Call(c) => {
                correct_call(c, lines);
            },
            _ => {},
        }
    }
}

/// Corrects the spans of a statement.
pub fn correct_stmt(s: &mut Stmt, lines: &Vec<usize>)
    ensures
        stmt_corrected(*old(s), lines@, *final(s)),
    decreases *old(s), 1nat,
{
    match s {
        Stmt::Block(b) => {
            correct_block(b, lines);
        },
        Stmt::Line(l) => {
            correct_line(l, lines);
        },
        Stmt::VarDecl(v) => {
            correct_var_decl(v, lines);
        },
    }
}

/// Corrects the spans of a list of statements.
pub fn correct_stmts(ss: &mut Vec<Box<Stmt>>, lines: &Vec<usize>)
    ensures
        stmts_corrected(old(ss)@, lines@, final(ss)@),
    decreases *old(ss), 2nat,
{
    let ghost orig = *ss;
    let n = ss.len();
    let mut i: usize = 0;
    while i < n
        invariant
            i <= n,
            n == ss@.len(),
            n == orig@.len(),
            orig == *old(ss),
            forall|j: int| 0 <= j < i ==> stmt_corrected(*#[trigger] orig@[j], lines@, *ss@[j]),
            forall|j: int| i <= j < n ==> ss@[j] == orig@[j],
        decreases n - i,
    {
        proof {
            assert(ss@[i as int] == orig@[i as int]);
            assert(decreases_to!(orig => orig@));
            assert(decreases_to!(orig@ => orig@[i as int]));
        }
        correct_stmt(&mut ss[i], lines);
        i += 1;
    }
}

/// Corrects the spans of a block statement.
pub fn correct_block(b: &mut BlockStmt, lines: &Vec<usize>)
    ensures
        block_corrected(*old(b), lines@, *final(b)),
    decreases *old(b), 0nat,
{
    match b {
        BlockStmt::While { cond, body } => {
            correct_exp(cond, lines);
            correct_stmts(body, lines);
        },
        BlockStmt::If { cond, body } => {
            correct_exp(cond, lines);
            correct_stmts(body, lines);
        },
        BlockStmt::IfElse { cond, true_branch, false_branch } => {
            correct_exp(cond, lines);
            correct_stmts(true_branch, lines);
            correct_stmts(false_branch, lines);
        },
    }
}

/// Corrects the spans of a formal.
pub fn correct_formal(f: &mut FormalDecl, lines: &Vec<usize>)
    ensures
        formal_corrected(*old(f), lines@, *final(f)),
{
    match f {
        FormalDecl::VarDecl(v) => {
            correct_var_decl(v, lines);
        },
        FormalDecl::FormalDecl { id, formal_type } => {
            correct_id(id, lines);
            correct_type(formal_type, lines);
        },
    }
}

/// Corrects the spans of a function.
pub fn correct_fn(f: &mut FnDecl, lines: &Vec<usize>)
    ensures
        fn_corrected(*old(f), lines@, *final(f)),
{
    correct_id(&mut f.id, lines);
    let ghost orig = f.args@;
    let n = f.args.len();
    let mut i: usize = 0;
    while i < n
        invariant
            i <= n,
            n == f.args@.len(),
            n == orig.len(),
            orig == old(f).args@,
            id_corrected(*old(f).id, lines@, *f.id),
            f.ret == old(f).ret,
            f.body == old(f).body,
            forall|j: int| 0 <= j < i ==> formal_corrected(*#[trigger] orig[j], lines@, *f.args@[j]),
            forall|j: int| i <= j < n ==> f.args@[j] == orig[j],
        decreases n - i,
    {
        correct_formal(&mut f.args[i], lines);
        i += 1;
    }
    correct_type(&mut f.ret, lines);
    correct_stmts(&mut f.body, lines);
}

/// Corrects the spans of a declaration.
pub fn correct_decl(d: &mut Decl, lines: &Vec<usize>)
    ensures
        decl_corrected(*old(d), lines@, *final(d)),
    decreases *old(d), 1nat,
{
    match d {
        Decl::VarDecl(v) => {
            correct_var_decl(v, lines);
        },
        Decl::ClassDecl(c) => {
            correct_id(&mut c.id, lines);
            correct_decls(&mut c.member_f, lines);
        },
        Decl::FnDecl(f) => {
            correct_fn(f, lines);
        },
    }
}

/// Corrects the spans of a list of declarations.
pub fn correct_decls(ds: &mut Vec<Box<Decl>>, lines: &Vec<usize>)
    ensures
        decls_corrected(old(ds)@, lines@, final(ds)@),
    decreases *old(ds), 0nat,
{
    let ghost orig = *ds;
    let n = ds.len();
    let mut i: usize = 0;
    while i < n
        invariant
            i <= n,
            n == ds@.len(),
            n == orig@.len(),
            orig == *old(ds),
            forall|j: int| 0 <= j < i ==> decl_corrected(*#[trigger] orig@[j], lines@, *ds@[j]),
            forall|j: int| i <= j < n ==> ds@[j] == orig@[j],
        decreases n - i,
    {
        proof {
            assert(ds@[i as int] == orig@[i as int]);
            assert(decreases_to!(orig => orig@));
            assert(decreases_to!(orig@ => orig@[i as int]));
        }
        correct_decl(&mut ds[i], lines);
        i += 1;
    }
}

/// A node of the syntax tree whose spans can be corrected.
pub trait SpanNode: Sized {
    /// Whether `after` is the node with every span turned from byte
    /// offsets into rows and columns, given the byte length of each line
    /// of the source text.
    spec fn corrected(self, lines: Seq<usize>, after: Self) -> bool;

    /// Turns every span of the node from byte offsets into rows and
    /// columns, given the byte length of each line of the source text.
    fn correct_span_rec(&mut self, line_bytes: &Vec<usize>)
        ensures
            old(self).corrected(line_bytes@, *final(self)),
    ;
}

impl SpanNode for Program {
    open spec fn corrected(self, lines: Seq<usize>, after: Program) -> bool {
        program_corrected(self, lines, after)
    }

    fn correct_span_rec(&mut self, line_bytes: &Vec<usize>) {
        correct_decls(&mut self.globals, line_bytes);
    }
}

impl SpanNode for Decl {
    open spec fn corrected(self, lines: Seq<usize>, after: Decl) -> bool {
        decl_corrected(self, lines, after)
    }

    fn correct_span_rec(&mut self, line_bytes: &Vec<usize>) {
        correct_decl(self, line_bytes);
    }
}

impl SpanNode for VarDecl {
    open spec fn corrected(self, lines: Seq<usize>, after: VarDecl) -> bool {
        var_decl_corrected(self, lines, after)
    }

    fn correct_span_rec(&mut self, line_bytes: &Vec<usize>) {
        correct_var_decl(self, line_bytes);
    }
}

impl SpanNode for FnDecl {
    open spec fn corrected(self, lines: Seq<usize>, after: FnDecl) -> bool {
        fn_corrected(self, lines, after)
    }

    fn correct_span_rec(&mut self, line_bytes: &Vec<usize>) {
        correct_fn(self, line_bytes);
    }
}

impl SpanNode for FormalDecl {
    open spec fn corrected(self, lines: Seq<usize>, after: FormalDecl) -> bool {
        formal_corrected(self, lines, after)
    }

    fn correct_span_rec(&mut self, line_bytes: &Vec<usize>) {
        correct_formal(self, line_bytes);
    }
}

impl SpanNode for Stmt {
    open spec fn corrected(self, lines: Seq<usize>, after: Stmt) -> bool {
        stmt_corrected(self, lines, after)
    }

    fn correct_span_rec(&mut self, line_bytes: &Vec<usize>) {
        correct_stmt(self, line_bytes);
    }
}

impl SpanNode for BlockStmt {
    open spec fn corrected(self, lines: Seq<usize>, after: BlockStmt) -> bool {
        block_corrected(self, lines, after)
    }

    fn correct_span_rec(&mut self, line_bytes: &Vec<usize>) {
        correct_block(self, line_bytes);
    }
}

impl SpanNode for LineStmt {
    open spec fn corrected(self, lines: Seq<usize>, after: LineStmt) -> bool {
        line_corrected(self, lines, after)
    }

    fn correct_span_rec(&mut self, line_bytes: &Vec<usize>) {
        correct_line(self, line_bytes);
    }
}

impl SpanNode for Exp {
    open spec fn corrected(self, lines: Seq<usize>, after: Exp) -> bool {
        exp_corrected(self, lines, after)
    }

    fn correct_span_rec(&mut self, line_bytes: &Vec<usize>) {
        correct_exp(self, line_bytes);
    }
}

impl SpanNode for UnaryExp {
    open spec fn corrected(self, lines: Seq<usize>, after: UnaryExp) -> bool {
        unary_corrected(self, lines, after)
    }

    fn correct_span_rec(&mut self, line_bytes: &Vec<usize>) {
        correct_unary(self, line_bytes);
    }
}

impl SpanNode for BinaryExp {
    open spec fn corrected(self, lines: Seq<usize>, after: BinaryExp) -> bool {
        binary_corrected(self, lines, after)
    }

    fn correct_span_rec(&mut self, line_bytes: &Vec<usize>) {
        correct_binary(self, line_bytes);
    }
}

impl SpanNode for CallExp {
    open spec fn corrected(self, lines: Seq<usize>, after: CallExp) -> bool {
        call_corrected(self, lines, after)
    }

    fn correct_span_rec(&mut self, line_bytes: &Vec<usize>) {
        correct_call(self, line_bytes);
    }
}

impl SpanNode for Loc {
    open spec fn corrected(self, lines: Seq<usize>, after: Loc) -> bool {
        loc_corrected(self, lines, after)
    }

    fn correct_span_rec(&mut self, line_bytes: &Vec<usize>) {
        correct_loc(self, line_bytes);
    }
}

impl SpanNode for Id {
    open spec fn corrected(self, lines: Seq<usize>, after: Id) -> bool {
        id_corrected(self, lines, after)
    }

    fn correct_span_rec(&mut self, line_bytes: &Vec<usize>) {
        correct_id(self, line_bytes);
    }
}

} // verus!
