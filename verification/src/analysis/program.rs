//! Analysis of whole programs: the registration of functions and classes,
//! then the declarations in order.

use vstd::prelude::*;
use vstd::string::*;
use crate::analysis::env::{
    formal_name,
    formal_type,
    members_diags,
    name_of_formal,
    type_of_formal,
    Diagnostic,
    Env,
    ErrorType,
    TypeAnalyzer,
};
use crate::analysis::exp::diag_if;
use crate::analysis::stmt::{
    analyze_stmts,
    analyze_var_decl,
    declare,
    declare_diags,
    declare_env,
    lemma_stmts_env_frame,
    same_but_innermost,
    stmts_annotated,
    stmts_diags,
    var_decl_annotated,
    var_decl_diags,
    var_decl_env,
};
use crate::parser::ast::{Decl, FnDecl, FormalDecl, Program};
use crate::span::Span;

verus! {

/// The environment after the first pass over `globals[..n]`: every class
/// and every function among them is registered, in order.
pub open spec fn register_env(globals: Seq<Box<Decl>>, env: Env, n: int) -> Env
    decreases n,
{
    if n <= 0 || n > globals.len() {
        env
    } else {
        let before = register_env(globals, env, n - 1);
        match *globals[n - 1] {
            Decl::ClassDecl(c) => before.with_class(*c),
            Decl::FnDecl(f) => before.with_fn(*f),
            Decl::VarDecl(_) => before,
        }
    }
}

/// The name of a member of a class: that of a field or of a method.
pub open spec fn member_name(d: Decl) -> Option<Seq<char>> {
    match d {
        Decl::VarDecl(v) => Some(v.id.name@),
        Decl::FnDecl(f) => Some(f.id.name@),
        Decl::ClassDecl(_) => None,
    }
}

/// Whether one of the members `ms[..n]` has the name `name`.
pub open spec fn has_member(ms: Seq<Box<Decl>>, name: Seq<char>, n: int) -> bool
    decreases n,
{
    0 < n <= ms.len() && (has_member(ms, name, n - 1) || member_name(*ms[n - 1]) == Some(name))
}

/// The diagnostics of members that share a name: for each of the members
/// `ms[..n]` whose name is that of a member before it, `MultipleDecl` at
/// `span`, the name of the class.
pub open spec fn shared_names_diags(ms: Seq<Box<Decl>>, n: int, span: Span) -> Seq<Diagnostic>
    decreases n,
{
    if n <= 0 || n > ms.len() {
        Seq::empty()
    } else {
        shared_names_diags(ms, n - 1, span) + diag_if(
            member_name(*ms[n - 1]) matches Some(x) && has_member(ms, x, n - 1),
            ErrorType::MultipleDecl,
            span,
        )
    }
}

/// The diagnostics of the first pass over `globals[..n]`: for a class or a
/// function whose name is registered already, `MultipleDecl` at its name;
/// for a class, also `MultipleDecl` at its name for each member whose name
/// is that of a member before it, and then the diagnostics of its members.
pub open spec fn register_diags(globals: Seq<Box<Decl>>, env: Env, n: int) -> Seq<Diagnostic>
    decreases n,
{
    if n <= 0 || n > globals.len() {
        Seq::empty()
    } else {
        let before = register_env(globals, env, n - 1);
        register_diags(globals, env, n - 1) + (match *globals[n - 1] {
            Decl::ClassDecl(c) => diag_if(
                before.classes.contains_key(c.id.name@),
                ErrorType::MultipleDecl,
                c.id.span,
            ) + shared_names_diags(c.member_f@, c.member_f@.len() as int, c.id.span)
                + members_diags(c.member_f@, c.member_f@.len() as int, before.classes),
            Decl::FnDecl(f) => diag_if(
                before.functions.contains_key(f.id.name@),
                ErrorType::MultipleDecl,
                f.id.span,
            ),
            Decl::VarDecl(_) => Seq::empty(),
        })
    }
}

/// Where the name of a formal stands.
pub open spec fn formal_span(f: FormalDecl) -> Span {
    match f {
        FormalDecl::VarDecl(v) => v.id.span,
        FormalDecl::FormalDecl { id, formal_type } => id.span,
    }
}

/// The environment after the formals `args[..n]` have been declared.
pub open spec fn formals_env(args: Seq<Box<FormalDecl>>, env: Env, n: int) -> Env
    decreases n,
{
    if n <= 0 || n > args.len() {
        env
    } else {
        declare_env(formals_env(args, env, n - 1), formal_name(*args[n - 1]), formal_type(*args[n - 1]))
    }
}

/// The diagnostics of declaring the formals `args[..n]`.
pub open spec fn formals_diags(args: Seq<Box<FormalDecl>>, env: Env, n: int) -> Seq<Diagnostic>
    decreases n,
{
    if n <= 0 || n > args.len() {
        Seq::empty()
    } else {
        formals_diags(args, env, n - 1) + declare_diags(
            formals_env(args, env, n - 1),
            formal_name(*args[n - 1]),
            formal_type(*args[n - 1]),
            formal_span(*args[n - 1]),
        )
    }
}

/// The environment in which the body of a function is analyzed: a new
/// scope that holds the formals.
pub open spec fn fn_scope(f: FnDecl, env: Env) -> Env {
    formals_env(f.args@, env.enter(), f.args@.len() as int)
}

/// The diagnostics of a function: those of its formals, then those of the
/// statements of its body.
pub open spec fn fn_diags(f: FnDecl, env: Env) -> Seq<Diagnostic> {
    formals_diags(f.args@, env.enter(), f.args@.len() as int) + stmts_diags(
        f.body@,
        fn_scope(f, env),
        *f.ret.kind,
        f.body@.len() as int,
    )
}

/// Whether `r` is the function `o` after analysis.
pub open spec fn fn_annotated(o: FnDecl, env: Env, r: FnDecl) -> bool {
    &&& r.id == o.id
    &&& r.args == o.args
    &&& r.ret == o.ret
    &&& stmts_annotated(o.body@, fn_scope(o, env), r.body@)
}

/// The diagnostics of a top-level declaration in the second pass. A class
/// raises none: it was dealt with in the first.
pub open spec fn decl_diags(d: Decl, env: Env) -> Seq<Diagnostic> {
    match d {
        Decl::VarDecl(v) => var_decl_diags(*v, env),
        Decl::FnDecl(f) => fn_diags(*f, env),
        Decl::ClassDecl(_) => Seq::empty(),
    }
}

/// The environment after a top-level declaration in the second pass.
pub open spec fn decl_env(d: Decl, env: Env) -> Env {
    match d {
        Decl::VarDecl(v) => var_decl_env(*v, env),
        _ => env,
    }
}

/// Whether `r` is the top-level declaration `o` after analysis.
pub open spec fn decl_annotated(o: Decl, env: Env, r: Decl) -> bool {
    match o {
        Decl::VarDecl(v) => r matches Decl::VarDecl(v2) && var_decl_annotated(*v, env, *v2),
        Decl::FnDecl(f) => r matches Decl::FnDecl(f2) && fn_annotated(*f, env, *f2),
        Decl::ClassDecl(_) => r == o,
    }
}

/// The environment after the second pass over `globals[..n]`.
pub open spec fn decls_env(globals: Seq<Box<Decl>>, env: Env, n: int) -> Env
    decreases n,
{
    if n <= 0 || n > globals.len() {
        env
    } else {
        decl_env(*globals[n - 1], decls_env(globals, env, n - 1))
    }
}

/// The diagnostics of the second pass over `globals[..n]`.
pub open spec fn decls_diags(globals: Seq<Box<Decl>>, env: Env, n: int) -> Seq<Diagnostic>
    decreases n,
{
    if n <= 0 || n > globals.len() {
        Seq::empty()
    } else {
        decls_diags(globals, env, n - 1) + decl_diags(*globals[n - 1], decls_env(globals, env, n - 1))
    }
}

/// The environment in which the second pass over a program starts, given
/// the one in which the first pass starts.
pub open spec fn registered(p: Program, env: Env) -> Env {
    register_env(p.globals@, env, p.globals@.len() as int)
}

/// The diagnostics of a program analyzed from the environment `env` on:
/// those of the first pass, then those of the second.
pub open spec fn program_diags(p: Program, env: Env) -> Seq<Diagnostic> {
    register_diags(p.globals@, env, p.globals@.len() as int) + decls_diags(
        p.globals@,
        registered(p, env),
        p.globals@.len() as int,
    )
}

/// The environment that the analysis of a program leaves.
pub open spec fn program_env(p: Program, env: Env) -> Env {
    decls_env(p.globals@, registered(p, env), p.globals@.len() as int)
}

/// Whether `r` is the program `o` after analysis from the environment
/// `env` on.
pub open spec fn program_annotated(o: Program, env: Env, r: Program) -> bool {
    &&& r.globals@.len() == o.globals@.len()
    &&& forall|i: int|
        0 <= i < o.globals@.len() ==> decl_annotated(
            *#[trigger] o.globals@[i],
            decls_env(o.globals@, registered(o, env), i),
            *r.globals@[i],
        )
}

/// Declaring formals touches the innermost scope only.
pub proof fn lemma_formals_env_frame(args: Seq<Box<FormalDecl>>, env: Env, n: int)
    ensures
        same_but_innermost(formals_env(args, env, n), env),
    decreases n,
{
    if 0 < n <= args.len() {
        lemma_formals_env_frame(args, env, n - 1);
        let before = formals_env(args, env, n - 1);
        assert(declare_env(before, formal_name(*args[n - 1]), formal_type(*args[n - 1])).scopes.drop_last()
            =~= before.scopes.drop_last());
    }
}

/// The name of a member of a class.
pub fn name_of_member(d: &Decl) -> (r: Option<&String>)
    ensures
        match member_name(*d) {
            Some(x) => r matches Some(s) && s@ == x,
            None => r is None,
        },
{
    match d {
        Decl::VarDecl(v) => Some(&v.id.name),
        Decl::FnDecl(f) => Some(&f.id.name),
        Decl::ClassDecl(_) => None,
    }
}

/// Whether one of the first `n` members has the name `name`.
pub fn member_before(ms: &Vec<Box<Decl>>, name: &String, n: usize) -> (b: bool)
    requires
        n <= ms@.len(),
    ensures
        b == has_member(ms@, name@, n as int),
{
    let mut j: usize = 0;
    let mut found = false;
    while j < n
        invariant
            j <= n,
            n <= ms@.len(),
            found == has_member(ms@, name@, j as int),
        decreases n - j,
    {
        match name_of_member(&ms[j]) {
            Some(x) => {
                if *x == *name {
                    found = true;
                }
            },
            None => {},
        }
        j += 1;
    }
    found
}

/// Reports `MultipleDecl` at the name of the class for each member whose
/// name is that of a member before it.
pub fn report_shared_names(c: &crate::parser::ast::ClassDecl, an: &mut TypeAnalyzer)
    requires
        old(an).wf(),
    ensures
        final(an).wf(),
        final(an).env() == old(an).env(),
        final(an).diags() == old(an).diags() + shared_names_diags(
            c.member_f@,
            c.member_f@.len() as int,
            c.id.span,
        ),
{
    let ghost d0 = an.diags();
    let n = c.member_f.len();
    let mut k: usize = 0;
    proof {
        assert(d0 =~= d0 + shared_names_diags(c.member_f@, 0, c.id.span));
    }
    while k < n
        invariant
            k <= n,
            n == c.member_f@.len(),
            an.wf(),
            an.env() == old(an).env(),
            an.diags() == d0 + shared_names_diags(c.member_f@, k as int, c.id.span),
        decreases n - k,
    {
        match name_of_member(&c.member_f[k]) {
            Some(x) => {
                if member_before(&c.member_f, x, k) {
                    an.report_error(ErrorType::MultipleDecl, c.id.span);
                }
            },
            None => {},
        }
        proof {
            assert(an.diags() =~= d0 + shared_names_diags(c.member_f@, k + 1, c.id.span));
        }
        k += 1;
    }
}

/// The first pass: registers every class and every function of `globals`.
pub fn register(globals: &Vec<Box<Decl>>, an: &mut TypeAnalyzer)
    requires
        old(an).wf(),
    ensures
        final(an).wf(),
        final(an).env() == register_env(globals@, old(an).env(), globals@.len() as int),
        final(an).diags() == old(an).diags() + register_diags(
            globals@,
            old(an).env(),
            globals@.len() as int,
        ),
{
    let ghost env = an.env();
    let ghost d0 = an.diags();
    let n = globals.len();
    let mut i: usize = 0;
    proof {
        assert(d0 =~= d0 + register_diags(globals@, env, 0));
    }
    while i < n
        invariant
            i <= n,
            n == globals@.len(),
            an.wf(),
            an.env() == register_env(globals@, env, i as int),
            an.diags() == d0 + register_diags(globals@, env, i as int),
        decreases n - i,
    {
        let ghost da = an.diags();
        match &*globals[i] {
            Decl::ClassDecl(c) => {
                if an.has_class(&c.id.name) {
                    an.report_error(ErrorType::MultipleDecl, c.id.span);
                }
                report_shared_names(c, an);
                an.add_class(c);
            },
            Decl::FnDecl(f) => {
                if an.has_fn(&f.id.name) {
                    an.report_error(ErrorType::MultipleDecl, f.id.span);
                }
                an.add_fn(f);
            },
            Decl::VarDecl(_) => {},
        }
        proof {
            assert(an.diags() =~= d0 + register_diags(globals@, env, i + 1));
        }
        i += 1;
    }
}

/// Where the name of a formal stands.
pub fn span_of_formal(f: &FormalDecl) -> (s: Span)
    ensures
        s == formal_span(*f),
{
    match f {
        FormalDecl::VarDecl(v) => v.id.span,
        FormalDecl::FormalDecl { id, formal_type } => id.span,
    }
}

/// Declares the formals of a function in the innermost scope.
pub fn bind_formals(args: &Vec<Box<FormalDecl>>, an: &mut TypeAnalyzer)
    requires
        old(an).wf(),
    ensures
        final(an).wf(),
        final(an).env() == formals_env(args@, old(an).env(), args@.len() as int),
        final(an).diags() == old(an).diags() + formals_diags(
            args@,
            old(an).env(),
            args@.len() as int,
        ),
{
    let ghost env = an.env();
    let ghost d0 = an.diags();
    let n = args.len();
    let mut i: usize = 0;
    proof {
        assert(d0 =~= d0 + formals_diags(args@, env, 0));
    }
    while i < n
        invariant
            i <= n,
            n == args@.len(),
            an.wf(),
            an.env() == formals_env(args@, env, i as int),
            an.diags() == d0 + formals_diags(args@, env, i as int),
        decreases n - i,
    {
        let f = &args[i];
        declare(an, name_of_formal(f), type_of_formal(f), span_of_formal(f));
        proof {
            assert(an.diags() =~= d0 + formals_diags(args@, env, i + 1));
        }
        i += 1;
    }
}

/// Analyzes a function: declares its formals in a new scope, analyzes the
/// statements of its body in that scope, and closes it.
pub fn analyze_fn(f: &mut FnDecl, an: &mut TypeAnalyzer)
    requires
        old(an).wf(),
    ensures
        final(an).wf(),
        final(an).env() == old(an).env(),
        final(an).diags() == old(an).diags() + fn_diags(*old(f), old(an).env()),
        fn_annotated(*old(f), old(an).env(), *final(f)),
{
    let ghost env = an.env();
    let ghost d0 = an.diags();
    an.enter_scope();
    bind_formals(&f.args, an);
    let ghost inner = an.env();
    analyze_stmts(&mut f.body, an, &f.ret.kind);
    proof {
        old(an).lemma_wf();
        lemma_formals_env_frame(old(f).args@, env.enter(), old(f).args@.len() as int);
        lemma_stmts_env_frame(old(f).body@, inner, old(f).body@.len() as int);
        assert(env.enter().scopes.drop_last() =~= env.scopes);
        assert(an.diags() =~= d0 + fn_diags(*old(f), env));
    }
    an.remove_scope();
}

/// Analyzes a top-level declaration in the second pass.
pub fn analyze_decl(d: &mut Decl, an: &mut TypeAnalyzer)
    requires
        old(an).wf(),
    ensures
        final(an).wf(),
        final(an).env() == decl_env(*old(d), old(an).env()),
        final(an).diags() == old(an).diags() + decl_diags(*old(d), old(an).env()),
        decl_annotated(*old(d), old(an).env(), *final(d)),
{
    let is_class = match &*d {
        Decl::ClassDecl(_) => true,
        _ => false,
    };
    if !is_class {
        match d {
            Decl::VarDecl(v) => {
                analyze_var_decl(v, an);
            },
            Decl::FnDecl(f) => {
                analyze_fn(f, an);
            },
            Decl::ClassDecl(_) => {},
        }
    } else {
        proof {
            assert(an.diags() =~= old(an).diags() + decl_diags(*old(d), old(an).env()));
        }
    }
}

/// Analyzes a program with the analyzer `an`: first registers every class
/// and every function, so that they can be referred to before they are
/// declared, then analyzes the declarations in order. Every type slot for
/// which a type can be resolved is filled, and every error found is
/// reported; no error stops the analysis.
#[verifier::rlimit(50)]
#[verifier::spinoff_prover]
pub fn analyze_program(prog: &mut Program, an: &mut TypeAnalyzer)
    requires
        old(an).wf(),
    ensures
        final(an).wf(),
        final(an).env() == program_env(*old(prog), old(an).env()),
        final(an).diags() == old(an).diags() + program_diags(*old(prog), old(an).env()),
        program_annotated(*old(prog), old(an).env(), *final(prog)),
{
    let ghost env = an.env();
    let ghost d0 = an.diags();
    let ghost orig = prog.globals@;
    register(&prog.globals, an);
    let ghost env1 = an.env();
    let ghost d1 = an.diags();
    let n = prog.globals.len();
    let mut i: usize = 0;
    proof {
        assert(d1 =~= d1 + decls_diags(orig, env1, 0));
    }
    while i < n
        invariant
            i <= n,
            n == prog.globals@.len(),
            n == orig.len(),
            an.wf(),
            an.env() == decls_env(orig, env1, i as int),
            an.diags() == d1 + decls_diags(orig, env1, i as int),
            forall|j: int|
                0 <= j < i ==> decl_annotated(
                    *#[trigger] orig[j],
                    decls_env(orig, env1, j),
                    *prog.globals@[j],
                ),
            forall|j: int| i <= j < n ==> prog.globals@[j] == orig[j],
        decreases n - i,
    {
        analyze_decl(&mut prog.globals[i], an);
        proof {
            assert(an.diags() =~= d1 + decls_diags(orig, env1, i + 1));
        }
        i += 1;
    }
    proof {
        assert(an.diags() =~= d0 + program_diags(*old(prog), env));
    }
}

/// Analyzes a program from scratch and gives back the diagnostics, oldest
/// first. The analysis succeeded if and only if there is none.
pub fn type_error_check(prog: &mut Program) -> (diags: Vec<Diagnostic>)
    ensures
        diags@ == program_diags(*old(prog), Env::initial()),
        program_annotated(*old(prog), Env::initial(), *final(prog)),
{
    let mut an = TypeAnalyzer::new();
    analyze_program(prog, &mut an);
    let d = an.diagnostics();
    let mut out: Vec<Diagnostic> = Vec::new();
    let mut i: usize = 0;
    while i < d.len()
        invariant
            i <= d@.len(),
            out@ == d@.take(i as int),
        decreases d@.len() - i,
    {
        out.push(d[i]);
        proof {
            assert(d@.take(i as int).push(d@[i as int]) =~= d@.take(i + 1));
        }
        i += 1;
    }
    proof {
        assert(d@.take(d@.len() as int) =~= d@);
        assert(Seq::<Diagnostic>::empty() + program_diags(*old(prog), Env::initial())
            =~= program_diags(*old(prog), Env::initial()));
    }
    out
}

} // verus!
