//! The text of a syntax tree: the program written out again.

use vstd::prelude::*;
use vstd::string::*;
use crate::parser::ast::{
    BinaryExp,
    BinaryExpKind,
    BlockStmt,
    CallExp,
    ClassDecl,
    Decl,
    Exp,
    ExpKind,
    FnDecl,
    FormalDecl,
    LineStmt,
    LineStmtKind,
    Loc,
    PrimType,
    Program,
    Stmt,
    Type,
    TypeKind,
    UnaryExp,
    UnaryExpKind,
    VarDecl,
};
use crate::text::{append_i32, signed_decimal};

verus! {

/// The name of a primitive type; the type of strings has none.
pub open spec fn prim_text(p: PrimType) -> Seq<char> {
    match p {
        PrimType::Int => "int"@,
        PrimType::Bool => "bool"@,
        PrimType::Void => "void"@,
        PrimType::String => Seq::<char>::empty(),
    }
}

/// The text of a type: `perfect` before a write-once type, then the name
/// of the primitive or of the class.
pub open spec fn type_text(t: Type) -> Seq<char> {
    (if t.perfect {
        "perfect "@
    } else {
        Seq::<char>::empty()
    }) + (match *t.kind {
        TypeKind::Prim(p) => prim_text(p),
        TypeKind::Class(id) => id.name@,
    })
}

/// The sign of a unary operator.
pub open spec fn unary_sign(k: UnaryExpKind) -> Seq<char> {
    match k {
        UnaryExpKind::Neg => "-"@,
        UnaryExpKind::Not => "!"@,
    }
}

/// The sign of a binary operator.
pub open spec fn binary_sign(k: BinaryExpKind) -> Seq<char> {
    match k {
        BinaryExpKind::And => "and"@,
        BinaryExpKind::Or => "or"@,
        BinaryExpKind::Equals => "=="@,
        BinaryExpKind::NotEquals => "!="@,
        BinaryExpKind::Greater => ">"@,
        BinaryExpKind::Less => "<"@,
        BinaryExpKind::GreaterEq => ">="@,
        BinaryExpKind::LessEq => "<="@,
        BinaryExpKind::Plus => "+"@,
        BinaryExpKind::Minus => "-"@,
        BinaryExpKind::Times => "*"@,
        BinaryExpKind::Divide => "/"@,
    }
}

/// The tag that follows a name when names are tagged with their types:
/// the text `t` between braces.
pub open spec fn tag(t: Seq<char>, named: bool) -> Seq<char> {
    if named {
        "{"@ + t + "}"@
    } else {
        Seq::empty()
    }
}

/// The text of a location: its dotted name, tagged with its resolved type
/// when names are tagged and it has one.
pub open spec fn loc_text(l: Loc, named: bool) -> Seq<char> {
    l.spec_name() + (match l.loc_type {
        Some(t) => tag(type_text(t), named),
        None => Seq::empty(),
    })
}

/// The types of the formals `args[..n]`, with `, ` between them.
pub open spec fn formal_types_text(args: Seq<Box<FormalDecl>>, n: int) -> Seq<char>
    decreases n,
{
    if n <= 0 || n > args.len() {
        Seq::empty()
    } else if n == 1 {
        type_text(crate::analysis::env::formal_type(*args[0]))
    } else {
        formal_types_text(args, n - 1) + ", "@ + type_text(
            crate::analysis::env::formal_type(*args[n - 1]),
        )
    }
}

/// The signature of a function: `(types)->type`.
pub open spec fn signature_text(f: FnDecl) -> Seq<char> {
    "("@ + formal_types_text(f.args@, f.args@.len() as int) + ")->"@ + type_text(*f.ret)
}

/// The text of an expression.
pub open spec fn exp_text(e: Exp, named: bool) -> Seq<char>
    decreases e, 1nat,
{
    match *e.kind {
        ExpKind::True => "true"@,
        ExpKind::False => "false"@,
        ExpKind::Magic => "magic"@,
        ExpKind::UnaryExp(u) => unary_sign(*u.kind) + exp_text(*u.exp, named),
        ExpKind::BinaryExp(b) => exp_text(*b.lhs, named) + " "@ + binary_sign(*b.kind) + " "@ + exp_text(
            *b.rhs,
            named,
        ),
        ExpKind::CallExp(c) => call_text(*c, named),
        ExpKind::IntLit(n) => signed_decimal(n as int),
        ExpKind::StrLit(s) => s@,
        ExpKind::Loc(l) => loc_text(*l, named),
    }
}

/// The texts of the expressions `args[..n]`, with `, ` between them.
pub open spec fn args_text(args: Seq<Box<Exp>>, n: int, named: bool) -> Seq<char>
    decreases args, n,
{
    if n <= 0 || n > args.len() {
        Seq::<char>::empty()
    } else if n == 1 {
        exp_text(*args[0], named)
    } else {
        args_text(args, n - 1, named) + ", "@ + exp_text(*args[n - 1], named)
    }
}

/// The text of a call.
pub open spec fn call_text(c: CallExp, named: bool) -> Seq<char>
    decreases c, 0nat,
{
    c.name.spec_name() + "("@ + args_text(c.args@, c.args@.len() as int, named) + ")"@
}

/// The text of a variable declaration, without the semicolon.
pub open spec fn var_text(v: VarDecl, named: bool) -> Seq<char> {
    v.id.name@ + tag(type_text(*v.var_type), named) + " : "@ + type_text(*v.var_type) + (match v.init_val {
        Some(e) => " = "@ + exp_text(*e, named),
        None => Seq::<char>::empty(),
    })
}

/// The text of a variable declaration: one line.
pub open spec fn var_decl_text(v: VarDecl, named: bool) -> Seq<char> {
    var_text(v, named) + ";\n"@
}

/// The text of a line statement, without the semicolon.
pub open spec fn line_text(s: LineStmt, named: bool) -> Seq<char> {
    match *s.kind {
        LineStmtKind::Assign { dest, src } => loc_text(*dest, named) + " = "@ + exp_text(
            *src,
            named,
        ),
        LineStmtKind::PostDec { loc } => loc_text(*loc, named) + "--"@,
        LineStmtKind::PostInc { loc } => loc_text(*loc, named) + "++"@,
        LineStmtKind::Give { output } => "give "@ + exp_text(*output, named),
        LineStmtKind::Take { recipient } => "take "@ + loc_text(*recipient, named),
        LineStmtKind::Return { result } => match result {
            Some(e) => "return "@ + exp_text(*e, named),
            None => "return"@,
        },
        LineStmtKind::Exit => "today I don't feel like doing any work"@,
        LineStmtKind::Call(c) => call_text(*c, named),
    }
}

/// The text of a statement: one or more lines.
pub open spec fn stmt_text(s: Stmt, named: bool) -> Seq<char>
    decreases s, 1nat,
{
    match s {
        Stmt::Block(b) => block_text(*b, named),
        Stmt::Line(l) => line_text(*l, named) + ";\n"@,
        Stmt::VarDecl(v) => var_decl_text(*v, named),
    }
}

/// The texts of the statements `ss[..n]`, one after the other.
pub open spec fn stmts_text(ss: Seq<Box<Stmt>>, n: int, named: bool) -> Seq<char>
    decreases ss, n,
{
    if n <= 0 || n > ss.len() {
        Seq::<char>::empty()
    } else {
        stmts_text(ss, n - 1, named) + stmt_text(*ss[n - 1], named)
    }
}

/// The text of a body between braces.
pub open spec fn body_text(ss: Seq<Box<Stmt>>, named: bool) -> Seq<char>
    decreases ss, ss.len() + 1,
{
    "{\n"@ + stmts_text(ss, ss.len() as int, named) + "}\n"@
}

/// The text of a block statement.
pub open spec fn block_text(b: BlockStmt, named: bool) -> Seq<char>
    decreases b, 0nat,
{
    match b {
        BlockStmt::While { cond, body } => "while ("@ + exp_text(*cond, named) + ")"@ + body_text(body@, named),
        BlockStmt::If { cond, body } => "if ("@ + exp_text(*cond, named) + ")"@ + body_text(body@, named),
        BlockStmt::IfElse { cond, true_branch, false_branch } => "if ("@ + exp_text(*cond, named) + ")"@
            + body_text(true_branch@, named) + "else"@ + body_text(false_branch@, named),
    }
}

/// The text of a formal.
pub open spec fn formal_text(f: FormalDecl, named: bool) -> Seq<char> {
    match f {
        FormalDecl::VarDecl(v) => var_decl_text(v, named),
        FormalDecl::FormalDecl { id, formal_type } => id.name@ + tag(
            type_text(*formal_type),
            named,
        ) + " : "@ + type_text(*formal_type),
    }
}

/// The texts of the formals `args[..n]`, with `, ` between them.
pub open spec fn formals_text(args: Seq<Box<FormalDecl>>, n: int, named: bool) -> Seq<char>
    decreases n,
{
    if n <= 0 || n > args.len() {
        Seq::<char>::empty()
    } else if n == 1 {
        formal_text(*args[0], named)
    } else {
        formals_text(args, n - 1, named) + ", "@ + formal_text(*args[n - 1], named)
    }
}

/// The text of a function.
pub open spec fn fn_text(f: FnDecl, named: bool) -> Seq<char> {
    f.id.name@ + tag(signature_text(f), named) + " : ("@ + formals_text(
        f.args@,
        f.args@.len() as int,
        named,
    ) + ") "@ + type_text(*f.ret)
        + "  "@ + body_text(f.body@, named)
}

/// The text of a declaration.
pub open spec fn decl_text(d: Decl, named: bool) -> Seq<char>
    decreases d, 1nat,
{
    match d {
        Decl::VarDecl(v) => var_decl_text(*v, named),
        Decl::ClassDecl(c) => c.id.name@ + tag(c.id.name@, named) + " : class {\n"@ + decls_text(
            c.member_f@,
            c.member_f@.len() as int,
            named,
        ) + "};\n"@,
        Decl::FnDecl(f) => fn_text(*f, named),
    }
}

/// The texts of the declarations `ds[..n]`, one after the other.
pub open spec fn decls_text(ds: Seq<Box<Decl>>, n: int, named: bool) -> Seq<char>
    decreases ds, n,
{
    if n <= 0 || n > ds.len() {
        Seq::<char>::empty()
    } else {
        decls_text(ds, n - 1, named) + decl_text(*ds[n - 1], named)
    }
}

/// The text of a program.
pub open spec fn program_text(p: Program, named: bool) -> Seq<char> {
    decls_text(p.globals@, p.globals@.len() as int, named)
}

/// Appends the text of a type to `out`.
pub fn append_type(out: &mut String, t: &Type)
    ensures
        final(out)@ == old(out)@ + type_text(*t),
{
    if t.perfect {
        out.append("perfect ");
    }
    match &*t.kind {
        TypeKind::Prim(p) => {
            match p {
                PrimType::Int => out.append("int"),
                PrimType::Bool => out.append("bool"),
                PrimType::Void => out.append("void"),
                PrimType::String => {},
            }
        },
        TypeKind::Class(id) => {
            out.append(id.name.as_str());
        },
    }
    proof {
        assert(out@ =~= old(out)@ + type_text(*t));
    }
}

/// Appends the tag `{t}` to `out` when names are tagged.
pub fn append_tag(out: &mut String, t: &str, named: bool)
    ensures
        final(out)@ == old(out)@ + tag(t@, named),
{
    if named {
        out.append("{");
        out.append(t);
        out.append("}");
        proof {
            assert(out@ =~= old(out)@ + tag(t@, named));
        }
    } else {
        proof {
            assert(out@ =~= out@ + Seq::<char>::empty());
        }
    }
}

/// Appends the text of a location to `out`.
pub fn append_loc(out: &mut String, l: &Loc, named: bool)
    ensures
        final(out)@ == old(out)@ + loc_text(*l, named),
{
    l.append_name(out);
    let ghost head = out@;
    match &l.loc_type {
        Some(t) => {
            append_tag(out, t.to_text().as_str(), named);
        },
        None => {
            proof {
                assert(out@ =~= out@ + Seq::<char>::empty());
            }
        },
    }
    proof {
        assert(out@ =~= old(out)@ + loc_text(*l, named));
    }
}

/// The signature of a function: `(types)->type`.
pub fn signature_string(f: &FnDecl) -> (s: String)
    ensures
        s@ == signature_text(*f),
{
    let mut s = String::from_str("(");
    let ghost head = s@;
    let n = f.args.len();
    let mut i: usize = 0;
    proof {
        assert(s@ =~= head + formal_types_text(f.args@, 0));
    }
    while i < n
        invariant
            i <= n,
            n == f.args@.len(),
            s@ == head + formal_types_text(f.args@, i as int),
        decreases n - i,
    {
        if i > 0 {
            s.append(", ");
        }
        append_type(&mut s, crate::analysis::env::type_of_formal(&f.args[i]));
        proof {
            assert(s@ =~= head + formal_types_text(f.args@, i + 1));
        }
        i += 1;
    }
    s.append(")->");
    append_type(&mut s, &f.ret);
    proof {
        assert(s@ =~= signature_text(*f));
    }
    s
}

/// The sign of a binary operator.
pub fn sign_of_binary(k: BinaryExpKind) -> (s: &'static str)
    ensures
        s@ == binary_sign(k),
{
    match k {
        BinaryExpKind::And => "and",
        BinaryExpKind::Or => "or",
        BinaryExpKind::Equals => "==",
        BinaryExpKind::NotEquals => "!=",
        BinaryExpKind::Greater => ">",
        BinaryExpKind::Less => "<",
        BinaryExpKind::GreaterEq => ">=",
        BinaryExpKind::LessEq => "<=",
        BinaryExpKind::Plus => "+",
        BinaryExpKind::Minus => "-",
        BinaryExpKind::Times => "*",
        BinaryExpKind::Divide => "/",
    }
}

/// Appends the text of an expression to `out`.
pub fn append_exp(out: &mut String, e: &Exp, named: bool)
    ensures
        final(out)@ == old(out)@ + exp_text(*e, named),
    decreases e, 1nat,
{
    match &*e.kind {
        ExpKind::True => {
            out.append("true");
        },
        ExpKind::False => {
            out.append("false");
        },
        ExpKind::Magic => {
            out.append("magic");
        },
        ExpKind::UnaryExp(u) => {
            match *u.kind {
                UnaryExpKind::Neg => out.append("-"),
                UnaryExpKind::Not => out.append("!"),
            }
            append_exp(out, &u.exp, named);
            proof {
                assert(out@ =~= old(out)@ + exp_text(*e, named));
            }
        },
        ExpKind::BinaryExp(b) => {
            append_exp(out, &b.lhs, named);
            out.append(" ");
            out.append(sign_of_binary(*b.kind));
            out.append(" ");
            append_exp(out, &b.rhs, named);
            proof {
                assert(out@ =~= old(out)@ + exp_text(*e, named));
            }
        },
        ExpKind::CallExp(c) => {
            append_call(out, c, named);
        },
        ExpKind::IntLit(n) => {
            append_i32(out, *n);
        },
        ExpKind::StrLit(s) => {
            out.append(s.as_str());
        },
        ExpKind::Loc(l) => {
            append_loc(out, l, named);
        },
    }
}

/// Appends the text of a call to `out`.
pub fn append_call(out: &mut String, c: &CallExp, named: bool)
    ensures
        final(out)@ == old(out)@ + call_text(*c, named),
    decreases c, 0nat,
{
    c.name.append_name(out);
    out.append("(");
    let ghost head = out@;
    let n = c.args.len();
    let mut i: usize = 0;
    proof {
        assert(head =~= old(out)@ + c.name.spec_name() + "("@);
        assert(out@ =~= head + args_text(c.args@, 0, named));
    }
    while i < n
        invariant
            i <= n,
            n == c.args@.len(),
            out@ == head + args_text(c.args@, i as int, named),
        decreases n - i,
    {
        if i > 0 {
            out.append(", ");
        }
        append_exp(out, &c.args[i], named);
        proof {
            assert(out@ =~= head + args_text(c.args@, i + 1, named));
        }
        i += 1;
    }
    out.append(")");
    proof {
        assert(out@ =~= old(out)@ + call_text(*c, named));
    }
}

/// Appends the text of a variable declaration, without the semicolon, to
/// `out`.
pub fn append_var(out: &mut String, v: &VarDecl, named: bool)
    ensures
        final(out)@ == old(out)@ + var_text(*v, named),
{
    out.append(v.id.name.as_str());
    append_tag(out, v.var_type.to_text().as_str(), named);
    out.append(" : ");
    append_type(out, &v.var_type);
    let ghost head = out@;
    proof {
        assert(head =~= old(out)@ + (v.id.name@ + tag(type_text(*v.var_type), named) + " : "@
            + type_text(*v.var_type)));
    }
    match &v.init_val {
        Some(e) => {
            out.append(" = ");
            append_exp(out, e, named);
            proof {
                assert(out@ =~= head + (" = "@ + exp_text(**e, named)));
            }
        },
        None => {},
    }
    proof {
        assert(out@ =~= old(out)@ + var_text(*v, named));
    }
}

/// Appends the line of a variable declaration to `out`.
pub fn append_var_decl(out: &mut String, v: &VarDecl, named: bool)
    ensures
        final(out)@ == old(out)@ + var_decl_text(*v, named),
{
    append_var(out, v, named);
    out.append(";\n");
    proof {
        assert(out@ =~= old(out)@ + var_decl_text(*v, named));
    }
}

/// Appends the text of a line statement, without the semicolon, to `out`.
pub fn append_line(out: &mut String, s: &LineStmt, named: bool)
    ensures
        final(out)@ == old(out)@ + line_text(*s, named),
{
    match &*s.kind {
        LineStmtKind::Assign { dest, src } => {
            append_loc(out, dest, named);
            out.append(" = ");
            append_exp(out, src, named);
        },
        LineStmtKind::PostDec { loc } => {
            append_loc(out, loc, named);
            out.append("--");
        },
        LineStmtKind::PostInc { loc } => {
            append_loc(out, loc, named);
            out.append("++");
        },
        LineStmtKind::Give { output } => {
            out.append("give ");
            append_exp(out, output, named);
        },
        LineStmtKind::Take { recipient } => {
            out.append("take ");
            append_loc(out, recipient, named);
        },
        LineStmtKind::Return { result } => {
            match result {
                Some(e) => {
                    out.append("return ");
                    append_exp(out, e, named);
                },
                None => {
                    out.append("return");
                },
            }
        },
        LineStmtKind::Exit => {
            out.append("today I don't feel like doing any work");
        },
        LineStmtKind::Call(c) => {
            append_call(out, c, named);
        },
    }
    proof {
        assert(out@ =~= old(out)@ + line_text(*s, named));
    }
}

/// Appends the text of a statement to `out`.
pub fn append_stmt(out: &mut String, s: &Stmt, named: bool)
    ensures
        final(out)@ == old(out)@ + stmt_text(*s, named),
    decreases s, 1nat,
{
    match s {
        Stmt::Block(b) => {
            append_block(out, b, named);
        },
        Stmt::Line(l) => {
            append_line(out, l, named);
            out.append(";\n");
            proof {
                assert(out@ =~= old(out)@ + stmt_text(*s, named));
            }
        },
        Stmt::VarDecl(v) => {
            append_var_decl(out, v, named);
        },
    }
}

/// Appends the text of a body between braces to `out`.
pub fn append_body(out: &mut String, ss: &Vec<Box<Stmt>>, named: bool)
    ensures
        final(out)@ == old(out)@ + body_text(ss@, named),
    decreases ss, 2nat,
{
    out.append("{\n");
    let ghost head = out@;
    let n = ss.len();
    let mut i: usize = 0;
    proof {
        assert(out@ =~= head + stmts_text(ss@, 0, named));
    }
    while i < n
        invariant
            i <= n,
            n == ss@.len(),
            out@ == head + stmts_text(ss@, i as int, named),
        decreases n - i,
    {
        append_stmt(out, &ss[i], named);
        proof {
            assert(out@ =~= head + stmts_text(ss@, i + 1, named));
        }
        i += 1;
    }
    out.append("}\n");
    proof {
        assert(out@ =~= old(out)@ + body_text(ss@, named));
    }
}

/// Appends the text of a block statement to `out`.
pub fn append_block(out: &mut String, b: &BlockStmt, named: bool)
    ensures
        final(out)@ == old(out)@ + block_text(*b, named),
    decreases b, 0nat,
{
    match b {
        BlockStmt::While { cond, body } => {
            out.append("while (");
            append_exp(out, cond, named);
            out.append(")");
            let ghost head = out@;
            proof {
                assert(head =~= old(out)@ + ("while ("@ + exp_text(**cond, named) + ")"@));
            }
            append_body(out, body, named);
            proof {
                assert(out@ =~= old(out)@ + block_text(*b, named));
            }
        },
        BlockStmt::If { cond, body } => {
            out.append("if (");
            append_exp(out, cond, named);
            out.append(")");
            let ghost head = out@;
            proof {
                assert(head =~= old(out)@ + ("if ("@ + exp_text(**cond, named) + ")"@));
            }
            append_body(out, body, named);
            proof {
                assert(out@ =~= old(out)@ + block_text(*b, named));
            }
        },
        BlockStmt::IfElse { cond, true_branch, false_branch } => {
            out.append("if (");
            append_exp(out, cond, named);
            out.append(")");
            let ghost head = out@;
            proof {
                assert(head =~= old(out)@ + ("if ("@ + exp_text(**cond, named) + ")"@));
            }
            append_body(out, true_branch, named);
            out.append("else");
            let ghost mid = out@;
            proof {
                assert(mid =~= old(out)@ + ("if ("@ + exp_text(**cond, named) + ")"@ + body_text(
                    true_branch@,
                    named,
                ) + "else"@));
            }
            append_body(out, false_branch, named);
            proof {
                assert(out@ =~= old(out)@ + block_text(*b, named));
            }
        },
    }
}

/// Appends the text of a formal to `out`.
pub fn append_formal(out: &mut String, f: &FormalDecl, named: bool)
    ensures
        final(out)@ == old(out)@ + formal_text(*f, named),
{
    match f {
        FormalDecl::VarDecl(v) => {
            append_var_decl(out, v, named);
        },
        FormalDecl::FormalDecl { id, formal_type } => {
            out.append(id.name.as_str());
            append_tag(out, formal_type.to_text().as_str(), named);
            out.append(" : ");
            append_type(out, formal_type);
            proof {
                assert(out@ =~= old(out)@ + formal_text(*f, named));
            }
        },
    }
}

/// Appends the text of a function to `out`.
pub fn append_fn(out: &mut String, f: &FnDecl, named: bool)
    ensures
        final(out)@ == old(out)@ + fn_text(*f, named),
{
    out.append(f.id.name.as_str());
    append_tag(out, signature_string(f).as_str(), named);
    out.append(" : (");
    let ghost head = out@;
    let n = f.args.len();
    let mut i: usize = 0;
    proof {
        assert(head =~= old(out)@ + (f.id.name@ + tag(signature_text(*f), named) + " : ("@));
        assert(out@ =~= head + formals_text(f.args@, 0, named));
    }
    while i < n
        invariant
            i <= n,
            n == f.args@.len(),
            out@ == head + formals_text(f.args@, i as int, named),
        decreases n - i,
    {
        if i > 0 {
            out.append(", ");
        }
        append_formal(out, &f.args[i], named);
        proof {
            assert(out@ =~= head + formals_text(f.args@, i + 1, named));
        }
        i += 1;
    }
    out.append(") ");
    append_type(out, &f.ret);
    out.append("  ");
    let ghost mid = out@;
    proof {
        assert(mid =~= old(out)@ + (f.id.name@ + tag(signature_text(*f), named) + " : ("@ + formals_text(
            f.args@,
            f.args@.len() as int,
            named,
        ) + ") "@ + type_text(*f.ret) + "  "@));
    }
    append_body(out, &f.body, named);
    proof {
        assert(out@ =~= old(out)@ + fn_text(*f, named));
    }
}

/// Appends the text of a declaration to `out`.
pub fn append_decl(out: &mut String, d: &Decl, named: bool)
    ensures
        final(out)@ == old(out)@ + decl_text(*d, named),
    decreases d, 1nat,
{
    match d {
        Decl::VarDecl(v) => {
            append_var_decl(out, v, named);
        },
        Decl::ClassDecl(c) => {
            out.append(c.id.name.as_str());
            append_tag(out, c.id.name.as_str(), named);
            out.append(" : class {\n");
            let ghost head = out@;
            proof {
                assert(head =~= old(out)@ + (c.id.name@ + tag(c.id.name@, named) + " : class {\n"@));
            }
            append_decls(out, &c.member_f, named);
            out.append("};\n");
            proof {
                assert(out@ =~= old(out)@ + decl_text(*d, named));
            }
        },
        Decl::FnDecl(f) => {
            append_fn(out, f, named);
        },
    }
}

/// Appends the texts of declarations to `out`.
pub fn append_decls(out: &mut String, ds: &Vec<Box<Decl>>, named: bool)
    ensures
        final(out)@ == old(out)@ + decls_text(ds@, ds@.len() as int, named),
    decreases ds, 0nat,
{
    let n = ds.len();
    let mut i: usize = 0;
    proof {
        assert(out@ =~= old(out)@ + decls_text(ds@, 0, named));
    }
    while i < n
        invariant
            i <= n,
            n == ds@.len(),
            out@ == old(out)@ + decls_text(ds@, i as int, named),
        decreases n - i,
    {
        append_decl(out, &ds[i], named);
        proof {
            assert(out@ =~= old(out)@ + decls_text(ds@, i + 1, named));
        }
        i += 1;
    }
}

impl Program {
    /// The text of the program.
    pub fn to_text(&self) -> (s: String)
        ensures
            s@ == program_text(*self, false),
    {
        let mut s = String::new();
        append_decls(&mut s, &self.globals, false);
        proof {
            assert(s@ =~= program_text(*self, false));
        }
        s
    }
}

impl Exp {
    /// The text of the expression.
    pub fn to_text(&self) -> (s: String)
        ensures
            s@ == exp_text(*self, false),
    {
        let mut s = String::new();
        append_exp(&mut s, self, false);
        proof {
            assert(s@ =~= exp_text(*self, false));
        }
        s
    }
}

impl Type {
    /// The text of the type.
    pub fn to_text(&self) -> (s: String)
        ensures
            s@ == type_text(*self),
    {
        let mut s = String::new();
        append_type(&mut s, self);
        proof {
            assert(s@ =~= type_text(*self));
        }
        s
    }
}

/// A node that can be written out with its names tagged with their types.
pub trait NamedNode: Sized {
    /// The text of the node with every declared name tagged with its
    /// type, and every location with the type that it resolved to.
    spec fn named_text(self) -> Seq<char>;

    /// The text of the node with its names tagged with their types.
    fn named_unparse(&self) -> (s: String)
        ensures
            s@ == self.named_text(),
    ;
}

impl NamedNode for Program {
    open spec fn named_text(self) -> Seq<char> {
        program_text(self, true)
    }

    fn named_unparse(&self) -> (s: String) {
        let mut s = String::new();
        append_decls(&mut s, &self.globals, true);
        proof {
            assert(s@ =~= self.named_text());
        }
        s
    }
}

impl NamedNode for Decl {
    open spec fn named_text(self) -> Seq<char> {
        decl_text(self, true)
    }

    fn named_unparse(&self) -> (s: String) {
        let mut s = String::new();
        append_decl(&mut s, self, true);
        proof {
            assert(s@ =~= self.named_text());
        }
        s
    }
}

impl NamedNode for VarDecl {
    open spec fn named_text(self) -> Seq<char> {
        var_decl_text(self, true)
    }

    fn named_unparse(&self) -> (s: String) {
        let mut s = String::new();
        append_var_decl(&mut s, self, true);
        proof {
            assert(s@ =~= self.named_text());
        }
        s
    }
}

impl NamedNode for FnDecl {
    open spec fn named_text(self) -> Seq<char> {
        fn_text(self, true)
    }

    fn named_unparse(&self) -> (s: String) {
        let mut s = String::new();
        append_fn(&mut s, self, true);
        proof {
            assert(s@ =~= self.named_text());
        }
        s
    }
}

impl NamedNode for FormalDecl {
    open spec fn named_text(self) -> Seq<char> {
        formal_text(self, true)
    }

    fn named_unparse(&self) -> (s: String) {
        let mut s = String::new();
        append_formal(&mut s, self, true);
        proof {
            assert(s@ =~= self.named_text());
        }
        s
    }
}

impl NamedNode for Stmt {
    open spec fn named_text(self) -> Seq<char> {
        stmt_text(self, true)
    }

    fn named_unparse(&self) -> (s: String) {
        let mut s = String::new();
        append_stmt(&mut s, self, true);
        proof {
            assert(s@ =~= self.named_text());
        }
        s
    }
}

impl NamedNode for BlockStmt {
    open spec fn named_text(self) -> Seq<char> {
        block_text(self, true)
    }

    fn named_unparse(&self) -> (s: String) {
        let mut s = String::new();
        append_block(&mut s, self, true);
        proof {
            assert(s@ =~= self.named_text());
        }
        s
    }
}

impl NamedNode for LineStmt {
    open spec fn named_text(self) -> Seq<char> {
        line_text(self, true)
    }

    fn named_unparse(&self) -> (s: String) {
        let mut s = String::new();
        append_line(&mut s, self, true);
        proof {
            assert(s@ =~= self.named_text());
        }
        s
    }
}

impl NamedNode for Exp {
    open spec fn named_text(self) -> Seq<char> {
        exp_text(self, true)
    }

    fn named_unparse(&self) -> (s: String) {
        let mut s = String::new();
        append_exp(&mut s, self, true);
        proof {
            assert(s@ =~= self.named_text());
        }
        s
    }
}

impl NamedNode for CallExp {
    open spec fn named_text(self) -> Seq<char> {
        call_text(self, true)
    }

    fn named_unparse(&self) -> (s: String) {
        let mut s = String::new();
        append_call(&mut s, self, true);
        proof {
            assert(s@ =~= self.named_text());
        }
        s
    }
}

impl NamedNode for Loc {
    open spec fn named_text(self) -> Seq<char> {
        loc_text(self, true)
    }

    fn named_unparse(&self) -> (s: String) {
        let mut s = String::new();
        append_loc(&mut s, self, true);
        proof {
            assert(s@ =~= self.named_text());
        }
        s
    }
}

} // verus!
