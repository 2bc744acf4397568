//! The symbol table of the three-address code, and the pass that fills it:
//! the globals, the pool of string literals, and the locals of each
//! function.

use vstd::prelude::*;
use vstd::string::*;
use crate::analysis::env::{dotted, name_of_formal, type_of_formal, TypeAnalyzer};
use crate::assembly::emit::{storage_of, strings_view};
use crate::assembly::ir::{quads_text, Variable3ACType};
use crate::assembly::three_ac::{
    args_strings,
    decls_globals,
    decls_strings,
    exp_strings,
    field_vars,
    fn_locals,
    formal_vars,
    line_strings,
    opt_strings,
    stmt_locals,
    stmt_strings,
    stmts_locals,
    stmts_strings,
    storage_type,
    var_sigs,
    FnView,
    Instr,
    IrView,
    VarSig,
};
use crate::parser::ast::{
    BlockStmt,
    Decl,
    Exp,
    ExpKind,
    FnDecl,
    LineStmt,
    LineStmtKind,
    Stmt,
    TypeKind,
    VarDecl,
};
use crate::text::{append_usize, decimal};

verus! {

/// A global or a local.
#[derive(Debug, PartialEq)]
pub struct Variable3AC {
    pub id: String,
    pub var_type: Variable3ACType,
}

/// Where a variable is declared: at the top level, or in the function of
/// this name.
#[derive(Debug, PartialEq)]
pub enum FunctionType {
    Global,
    Local { id: String },
}

/// What the symbol table records of a function.
#[derive(Debug, PartialEq)]
pub struct FunctionValue {
    pub name: String,
    pub locals: Vec<Variable3AC>,
    pub tmps: Vec<Variable3ACType>,
    /// The index of the first instruction of the function.
    pub start: usize,
    /// The index after that of its last instruction.
    pub end: usize,
}

/// The symbol table of a program's three-address code.
#[derive(Debug, PartialEq)]
pub struct IRSymbolTable {
    pub globals: Vec<Variable3AC>,
    pub strings: Vec<String>,
    pub functions: Vec<FunctionValue>,
}

impl View for Variable3AC {
    type V = VarSig;

    open spec fn view(&self) -> VarSig {
        VarSig { id: self.id@, var_type: self.var_type }
    }
}

/// The views of a list of variables.
pub open spec fn vars_view(v: Seq<Variable3AC>) -> Seq<VarSig> {
    Seq::new(v.len(), |i: int| v[i]@)
}

impl View for FunctionValue {
    type V = FnView;

    open spec fn view(&self) -> FnView {
        FnView {
            name: self.name@,
            locals: vars_view(self.locals@),
            tmps: self.tmps@,
            start: self.start as nat,
            end: self.end as nat,
        }
    }
}

/// The views of a list of functions.
pub open spec fn fns_view(v: Seq<FunctionValue>) -> Seq<FnView> {
    Seq::new(v.len(), |i: int| v[i]@)
}

/// The lines of the variables `vs[..n]`: `name-type` each.
pub open spec fn vars_text(vs: Seq<VarSig>, n: int) -> Seq<char>
    decreases n,
{
    if n <= 0 || n > vs.len() {
        Seq::empty()
    } else {
        vars_text(vs, n - 1) + vs[n - 1].id + "-"@ + vs[n - 1].var_type.spec_text() + "\n"@
    }
}

/// The lines of the temporaries `ts[..n]`: `tmpN-type` each.
pub open spec fn tmps_text(ts: Seq<Variable3ACType>, n: int) -> Seq<char>
    decreases n,
{
    if n <= 0 || n > ts.len() {
        Seq::empty()
    } else {
        tmps_text(ts, n - 1) + "tmp"@ + decimal((n - 1) as nat) + "-"@ + ts[n - 1].spec_text()
            + "\n"@
    }
}

/// The lines of the strings `ss[..n]` of the pool: `strN literal` each.
pub open spec fn strings_text(ss: Seq<Seq<char>>, n: int) -> Seq<char>
    decreases n,
{
    if n <= 0 || n > ss.len() {
        Seq::empty()
    } else {
        strings_text(ss, n - 1) + "str"@ + decimal((n - 1) as nat) + " "@ + ss[n - 1] + "\n"@
    }
}

/// The lines between the markers of the globals: the globals, then the
/// strings of the pool.
pub open spec fn globals_text(globals: Seq<VarSig>, strings: Seq<Seq<char>>) -> Seq<char> {
    vars_text(globals, globals.len() as int) + strings_text(strings, strings.len() as int)
}

/// The lines between the markers of the locals of a function: its locals,
/// then its temporaries.
pub open spec fn locals_text(f: FnView) -> Seq<char> {
    vars_text(f.locals, f.locals.len() as int) + tmps_text(f.tmps, f.tmps.len() as int)
}

/// The instructions of a function within all the instructions.
pub open spec fn fn_instrs(f: FnView, code: Seq<Instr>) -> Seq<Instr> {
    if f.start <= f.end <= code.len() {
        code.subrange(f.start as int, f.end as int)
    } else {
        Seq::empty()
    }
}

/// The text of a function: an empty line, its locals between their
/// markers, then its instructions.
pub open spec fn fn_text(f: FnView, code: Seq<Instr>) -> Seq<char> {
    "\n[BEGIN "@ + f.name + " LOCALS]\n"@ + locals_text(f) + "[END "@ + f.name + " LOCALS]\n"@
        + quads_text(fn_instrs(f, code), fn_instrs(f, code).len() as int)
}

/// The text of the functions `fs[..n]`.
pub open spec fn fns_text(fs: Seq<FnView>, code: Seq<Instr>, n: int) -> Seq<char>
    decreases n,
{
    if n <= 0 || n > fs.len() {
        Seq::empty()
    } else {
        fns_text(fs, code, n - 1) + fn_text(fs[n - 1], code)
    }
}

/// The text of a program's three-address code.
pub open spec fn ir_text(ir: IrView) -> Seq<char> {
    "[BEGIN GLOBALS]\n"@ + globals_text(ir.globals, ir.strings) + "[END GLOBALS]\n"@ + fns_text(
        ir.functions,
        ir.code,
        ir.functions.len() as int,
    )
}

/// Appends the lines of variables to `out`.
pub fn append_vars(out: &mut String, vs: &Vec<Variable3AC>)
    ensures
        final(out)@ == old(out)@ + vars_text(vars_view(vs@), vs@.len() as int),
{
    let ghost v = vars_view(vs@);
    let mut i: usize = 0;
    proof {
        assert(out@ =~= old(out)@ + vars_text(v, 0));
    }
    while i < vs.len()
        invariant
            i <= vs@.len(),
            v == vars_view(vs@),
            out@ == old(out)@ + vars_text(v, i as int),
        decreases vs@.len() - i,
    {
        out.append(vs[i].id.as_str());
        out.append("-");
        out.append(vs[i].var_type.text());
        out.append("\n");
        proof {
            assert(v[i as int] == vs@[i as int]@);
            assert(out@ =~= old(out)@ + vars_text(v, i + 1));
        }
        i += 1;
    }
}

/// Appends the lines of temporaries to `out`.
pub fn append_tmps(out: &mut String, ts: &Vec<Variable3ACType>)
    ensures
        final(out)@ == old(out)@ + tmps_text(ts@, ts@.len() as int),
{
    let mut i: usize = 0;
    proof {
        assert(out@ =~= old(out)@ + tmps_text(ts@, 0));
    }
    while i < ts.len()
        invariant
            i <= ts@.len(),
            out@ == old(out)@ + tmps_text(ts@, i as int),
        decreases ts@.len() - i,
    {
        out.append("tmp");
        append_usize(out, i);
        out.append("-");
        out.append(ts[i].text());
        out.append("\n");
        proof {
            assert(out@ =~= old(out)@ + tmps_text(ts@, i + 1));
        }
        i += 1;
    }
}

/// Appends the lines of the strings of the pool to `out`.
pub fn append_strings(out: &mut String, ss: &Vec<String>)
    ensures
        final(out)@ == old(out)@ + strings_text(strings_view(ss@), ss@.len() as int),
{
    let ghost v = strings_view(ss@);
    let mut i: usize = 0;
    proof {
        assert(out@ =~= old(out)@ + strings_text(v, 0));
    }
    while i < ss.len()
        invariant
            i <= ss@.len(),
            v == strings_view(ss@),
            out@ == old(out)@ + strings_text(v, i as int),
        decreases ss@.len() - i,
    {
        out.append("str");
        append_usize(out, i);
        out.append(" ");
        out.append(ss[i].as_str());
        out.append("\n");
        proof {
            assert(v[i as int] == ss@[i as int]@);
            assert(out@ =~= old(out)@ + strings_text(v, i + 1));
        }
        i += 1;
    }
}

impl FunctionValue {
    /// The record of a function that has no locals, no temporaries and no
    /// code yet.
    pub fn new(name: String, start: usize) -> (f: FunctionValue)
        ensures
            f@ == (FnView { name: name@, locals: seq![], tmps: seq![], start: start as nat, end: start as nat }),
    {
        let f = FunctionValue { name, locals: Vec::new(), tmps: Vec::new(), start, end: start };
        proof {
            assert(f@.locals =~= Seq::<VarSig>::empty());
            assert(f@.tmps =~= Seq::<Variable3ACType>::empty());
        }
        f
    }
}

impl IRSymbolTable {
    /// An empty symbol table.
    pub fn new() -> (t: IRSymbolTable)
        ensures
            t.globals@.len() == 0,
            t.strings@.len() == 0,
            t.functions@.len() == 0,
    {
        IRSymbolTable { globals: Vec::new(), strings: Vec::new(), functions: Vec::new() }
    }

    /// Adds a string to the pool, after those that it holds.
    pub fn add_string(&mut self, s: String)
        ensures
            strings_view(final(self).strings@) == strings_view(old(self).strings@).push(s@),
            final(self).globals == old(self).globals,
            final(self).functions == old(self).functions,
    {
        self.strings.push(s);
        proof {
            assert(strings_view(final(self).strings@) =~= strings_view(old(self).strings@).push(s@));
        }
    }

    /// Adds a variable: to the globals when `scope` is the top level, or
    /// else to the locals of the last function recorded, if that function
    /// is the one that `scope` names. Says whether the variable was added.
    pub fn add_var(&mut self, scope: &FunctionType, var: Variable3AC) -> (added: bool)
        ensures
            final(self).strings == old(self).strings,
            scope is Global ==> added && vars_view(final(self).globals@) == vars_view(
                old(self).globals@,
            ).push(var@) && final(self).functions == old(self).functions,
            scope matches FunctionType::Local { id } ==> final(self).globals == old(self).globals
                && added == (old(self).functions@.len() > 0 && old(self).functions@.last().name@
                == id@) && final(self).functions@.len() == old(self).functions@.len() && (added
                ==> final(self).functions@.last()@ == (FnView {
                locals: old(self).functions@.last()@.locals.push(var@),
                ..old(self).functions@.last()@
            }) && final(self).functions@.drop_last() == old(self).functions@.drop_last()) && (!added
                ==> final(self).functions == old(self).functions),
    {
        match scope {
            FunctionType::Global => {
                self.globals.push(var);
                proof {
                    assert(vars_view(final(self).globals@) =~= vars_view(old(self).globals@).push(
                        var@,
                    ));
                }
                true
            },
            FunctionType::Local { id } => {
                let n = self.functions.len();
                if n > 0 && self.functions[n - 1].name == *id {
                    let ghost before = self.functions@.last().locals@;
                    self.functions[n - 1].locals.push(var);
                    proof {
                        assert(vars_view(final(self).functions@.last().locals@) =~= vars_view(
                            before,
                        ).push(var@));
                        assert(final(self).functions@.drop_last() =~= old(
                            self,
                        ).functions@.drop_last());
                    }
                    true
                } else {
                    false
                }
            },
        }
    }

    /// The lines between the markers of the globals.
    pub fn globals(&self) -> (s: String)
        ensures
            s@ == globals_text(vars_view(self.globals@), strings_view(self.strings@)),
    {
        let mut s = String::new();
        append_vars(&mut s, &self.globals);
        append_strings(&mut s, &self.strings);
        proof {
            assert(s@ =~= globals_text(vars_view(self.globals@), strings_view(self.strings@)));
        }
        s
    }

    /// The lines between the markers of the locals of the function of the
    /// index `i`; nothing when there is no such function.
    pub fn fn_locals(&self, i: usize) -> (s: String)
        ensures
            i < self.functions@.len() ==> s@ == locals_text(self.functions@[i as int]@),
            i >= self.functions@.len() ==> s@ == Seq::<char>::empty(),
    {
        let mut s = String::new();
        if i < self.functions.len() {
            append_vars(&mut s, &self.functions[i].locals);
            append_tmps(&mut s, &self.functions[i].tmps);
            proof {
                assert(s@ =~= locals_text(self.functions@[i as int]@));
            }
        }
        s
    }
}

/// Appends the string literals of an expression to the pool.
pub fn collect_exp_strings(e: &Exp, pool: &mut Vec<String>)
    ensures
        strings_view(final(pool)@) == strings_view(old(pool)@) + exp_strings(*e),
    decreases e, 1nat,
{
    proof {
        assert(strings_view(pool@) =~= strings_view(pool@) + Seq::<Seq<char>>::empty());
    }
    match &*e.kind {
        ExpKind::StrLit(s) => {
            pool.push(s.clone());
            proof {
                assert(strings_view(pool@) =~= strings_view(old(pool)@) + exp_strings(*e));
            }
        },
        ExpKind::UnaryExp(u) => {
            collect_exp_strings(&u.exp, pool);
        },
        ExpKind::BinaryExp(b) => {
            collect_exp_strings(&b.lhs, pool);
            collect_exp_strings(&b.rhs, pool);
            proof {
                assert(strings_view(pool@) =~= strings_view(old(pool)@) + exp_strings(*e));
            }
        },
        ExpKind::CallExp(c) => {
            collect_args_strings(&c.args, pool);
        },
        _ => {},
    }
}

/// Appends the string literals of a list of expressions to the pool.
pub fn collect_args_strings(args: &Vec<Box<Exp>>, pool: &mut Vec<String>)
    ensures
        strings_view(final(pool)@) == strings_view(old(pool)@) + args_strings(
            args@,
            args@.len() as int,
        ),
    decreases args, 0nat,
{
    let mut i: usize = 0;
    proof {
        assert(strings_view(pool@) =~= strings_view(old(pool)@) + args_strings(args@, 0));
    }
    while i < args.len()
        invariant
            i <= args@.len(),
            strings_view(pool@) == strings_view(old(pool)@) + args_strings(args@, i as int),
        decreases args@.len() - i,
    {
        collect_exp_strings(&args[i], pool);
        proof {
            assert(strings_view(pool@) =~= strings_view(old(pool)@) + args_strings(args@, i + 1));
        }
        i += 1;
    }
}

/// Appends the string literals of an optional expression to the pool.
pub fn collect_opt_strings(e: &Option<Box<Exp>>, pool: &mut Vec<String>)
    ensures
        strings_view(final(pool)@) == strings_view(old(pool)@) + opt_strings(*e),
{
    match e {
        Some(x) => {
            collect_exp_strings(x, pool);
        },
        None => {
            proof {
                assert(strings_view(pool@) =~= strings_view(pool@) + Seq::<Seq<char>>::empty());
            }
        },
    }
}

/// Appends the string literals of a line statement to the pool.
pub fn collect_line_strings(s: &LineStmt, pool: &mut Vec<String>)
    ensures
        strings_view(final(pool)@) == strings_view(old(pool)@) + line_strings(*s),
{
    proof {
        assert(strings_view(pool@) =~= strings_view(pool@) + Seq::<Seq<char>>::empty());
    }
    match &*s.kind {
        LineStmtKind::Assign { dest, src } => {
            collect_exp_strings(src, pool);
        },
        LineStmtKind::Give { output } => {
            collect_exp_strings(output, pool);
        },
        LineStmtKind::Return { result } => {
            collect_opt_strings(result, pool);
        },
        LineStmtKind::Call(c) => {
            collect_args_strings(&c.args, pool);
        },
        _ => {},
    }
}

/// Appends the string literals of a statement to the pool.
pub fn collect_stmt_strings(s: &Stmt, pool: &mut Vec<String>)
    ensures
        strings_view(final(pool)@) == strings_view(old(pool)@) + stmt_strings(*s),
    decreases s, 1nat,
{
    match s {
        Stmt::Block(b) => {
            match &**b {
                BlockStmt::While { cond, body } => {
                    collect_exp_strings(cond, pool);
                    collect_stmts_strings(body, pool);
                },
                BlockStmt::If { cond, body } => {
                    collect_exp_strings(cond, pool);
                    collect_stmts_strings(body, pool);
                },
                BlockStmt::IfElse { cond, true_branch, false_branch } => {
                    collect_exp_strings(cond, pool);
                    collect_stmts_strings(true_branch, pool);
                    collect_stmts_strings(false_branch, pool);
                },
            }
            proof {
                assert(strings_view(pool@) =~= strings_view(old(pool)@) + stmt_strings(*s));
            }
        },
        Stmt::Line(l) => {
            collect_line_strings(l, pool);
        },
        Stmt::VarDecl(v) => {
            collect_opt_strings(&v.init_val, pool);
        },
    }
}

/// Appends the string literals of a list of statements to the pool.
pub fn collect_stmts_strings(ss: &Vec<Box<Stmt>>, pool: &mut Vec<String>)
    ensures
        strings_view(final(pool)@) == strings_view(old(pool)@) + stmts_strings(
            ss@,
            ss@.len() as int,
        ),
    decreases ss, 0nat,
{
    let mut i: usize = 0;
    proof {
        assert(strings_view(pool@) =~= strings_view(old(pool)@) + stmts_strings(ss@, 0));
    }
    while i < ss.len()
        invariant
            i <= ss@.len(),
            strings_view(pool@) == strings_view(old(pool)@) + stmts_strings(ss@, i as int),
        decreases ss@.len() - i,
    {
        collect_stmt_strings(&ss[i], pool);
        proof {
            assert(strings_view(pool@) =~= strings_view(old(pool)@) + stmts_strings(ss@, i + 1));
        }
        i += 1;
    }
}

/// The string literals of the top-level declarations, in order.
pub fn collect_strings(globals: &Vec<Box<Decl>>) -> (pool: Vec<String>)
    ensures
        strings_view(pool@) == decls_strings(globals@, globals@.len() as int),
{
    let mut pool: Vec<String> = Vec::new();
    let mut i: usize = 0;
    proof {
        assert(strings_view(pool@) =~= decls_strings(globals@, 0));
    }
    while i < globals.len()
        invariant
            i <= globals@.len(),
            strings_view(pool@) == decls_strings(globals@, i as int),
        decreases globals@.len() - i,
    {
        match &*globals[i] {
            Decl::VarDecl(v) => {
                collect_opt_strings(&v.init_val, &mut pool);
            },
            Decl::FnDecl(f) => {
                collect_stmts_strings(&f.body, &mut pool);
            },
            Decl::ClassDecl(_) => {
                proof {
                    assert(strings_view(pool@) =~= strings_view(pool@) + Seq::<Seq<char>>::empty());
                }
            },
        }
        i += 1;
    }
    pool
}

/// Appends the storage that a variable declaration asks for to `out`.
pub fn collect_var(v: &VarDecl, an: &TypeAnalyzer, out: &mut Vec<Variable3AC>)
    ensures
        vars_view(final(out)@) == vars_view(old(out)@) + var_sigs(*v, an.env().classes),
{
    match &*v.var_type.kind {
        TypeKind::Prim(_) => {
            out.push(Variable3AC { id: v.id.name.clone(), var_type: storage_of(&v.var_type) });
            proof {
                assert(vars_view(out@) =~= vars_view(old(out)@) + var_sigs(*v, an.env().classes));
            }
        },
        TypeKind::Class(c) => {
            match an.class_fields(&c.name) {
                Some(fields) => {
                    let ghost sigs = fields.deep_view();
                    let mut i: usize = 0;
                    proof {
                        assert(vars_view(out@) =~= vars_view(old(out)@) + field_vars(
                            v.id.name@,
                            sigs,
                            0,
                        ));
                    }
                    while i < fields.len()
                        invariant
                            i <= fields@.len(),
                            sigs == fields.deep_view(),
                            vars_view(out@) == vars_view(old(out)@) + field_vars(
                                v.id.name@,
                                sigs,
                                i as int,
                            ),
                        decreases fields@.len() - i,
                    {
                        let mut name = v.id.name.clone();
                        name.append("--");
                        name.append(fields[i].id.as_str());
                        let ghost before = vars_view(out@);
                        let var = Variable3AC { id: name, var_type: storage_of(&fields[i].field_type) };
                        proof {
                            assert(sigs[i as int] == fields@[i as int].deep_view());
                            assert(var.id@ =~= dotted(v.id.name@, sigs[i as int].id));
                            assert(var@ == (VarSig {
                                id: dotted(v.id.name@, sigs[i as int].id),
                                var_type: storage_type(sigs[i as int].field_type),
                            }));
                        }
                        out.push(var);
                        proof {
                            assert(vars_view(out@) =~= before.push(var@));
                            assert(vars_view(out@) =~= vars_view(old(out)@) + field_vars(
                                v.id.name@,
                                sigs,
                                i + 1,
                            ));
                        }
                        i += 1;
                    }
                },
                None => {
                    proof {
                        assert(vars_view(out@) =~= vars_view(out@) + Seq::<VarSig>::empty());
                    }
                },
            }
        },
    }
}

/// Appends the locals that a statement declares to `out`.
pub fn collect_stmt_locals(s: &Stmt, an: &TypeAnalyzer, out: &mut Vec<Variable3AC>)
    ensures
        vars_view(final(out)@) == vars_view(old(out)@) + stmt_locals(*s, an.env().classes),
    decreases s, 1nat,
{
    match s {
        Stmt::Block(b) => {
            match &**b {
                BlockStmt::While { cond, body } => {
                    collect_stmts_locals(body, an, out);
                },
                BlockStmt::If { cond, body } => {
                    collect_stmts_locals(body, an, out);
                },
                BlockStmt::IfElse { cond, true_branch, false_branch } => {
                    collect_stmts_locals(true_branch, an, out);
                    collect_stmts_locals(false_branch, an, out);
                    proof {
                        assert(vars_view(out@) =~= vars_view(old(out)@) + stmt_locals(
                            *s,
                            an.env().classes,
                        ));
                    }
                },
            }
        },
        Stmt::Line(_) => {
            proof {
                assert(vars_view(out@) =~= vars_view(out@) + Seq::<VarSig>::empty());
            }
        },
        Stmt::VarDecl(v) => {
            collect_var(v, an, out);
        },
    }
}

/// Appends the locals that a list of statements declares to `out`.
pub fn collect_stmts_locals(ss: &Vec<Box<Stmt>>, an: &TypeAnalyzer, out: &mut Vec<Variable3AC>)
    ensures
        vars_view(final(out)@) == vars_view(old(out)@) + stmts_locals(
            ss@,
            an.env().classes,
            ss@.len() as int,
        ),
    decreases ss, 0nat,
{
    let mut i: usize = 0;
    proof {
        assert(vars_view(out@) =~= vars_view(old(out)@) + stmts_locals(ss@, an.env().classes, 0));
    }
    while i < ss.len()
        invariant
            i <= ss@.len(),
            vars_view(out@) == vars_view(old(out)@) + stmts_locals(
                ss@,
                an.env().classes,
                i as int,
            ),
        decreases ss@.len() - i,
    {
        collect_stmt_locals(&ss[i], an, out);
        proof {
            assert(vars_view(out@) =~= vars_view(old(out)@) + stmts_locals(
                ss@,
                an.env().classes,
                i + 1,
            ));
        }
        i += 1;
    }
}

/// The locals of a function: its formals, then the variables that its body
/// declares.
pub fn collect_fn_locals(f: &FnDecl, an: &TypeAnalyzer) -> (out: Vec<Variable3AC>)
    ensures
        vars_view(out@) == fn_locals(*f, an.env().classes),
{
    let mut out: Vec<Variable3AC> = Vec::new();
    let mut i: usize = 0;
    proof {
        assert(vars_view(out@) =~= formal_vars(f.args@, 0));
    }
    while i < f.args.len()
        invariant
            i <= f.args@.len(),
            vars_view(out@) == formal_vars(f.args@, i as int),
        decreases f.args@.len() - i,
    {
        let a = &f.args[i];
        out.push(
            Variable3AC { id: name_of_formal(a).clone(), var_type: storage_of(type_of_formal(a)) },
        );
        proof {
            assert(vars_view(out@) =~= formal_vars(f.args@, i + 1));
        }
        i += 1;
    }
    collect_stmts_locals(&f.body, an, &mut out);
    out
}

/// The globals that the top-level declarations give.
pub fn collect_globals(globals: &Vec<Box<Decl>>, an: &TypeAnalyzer) -> (out: Vec<Variable3AC>)
    ensures
        vars_view(out@) == decls_globals(globals@, an.env().classes, globals@.len() as int),
{
    let mut out: Vec<Variable3AC> = Vec::new();
    let mut i: usize = 0;
    proof {
        assert(vars_view(out@) =~= decls_globals(globals@, an.env().classes, 0));
    }
    while i < globals.len()
        invariant
            i <= globals@.len(),
            vars_view(out@) == decls_globals(globals@, an.env().classes, i as int),
        decreases globals@.len() - i,
    {
        match &*globals[i] {
            Decl::VarDecl(v) => {
                collect_var(v, an, &mut out);
            },
            _ => {
                proof {
                    assert(vars_view(out@) =~= vars_view(out@) + Seq::<VarSig>::empty());
                }
            },
        }
        i += 1;
    }
    out
}

} // verus!
