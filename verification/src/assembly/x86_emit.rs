//! The translation of single instructions to assembly.

use vstd::prelude::*;
use vstd::string::*;
use crate::assembly::ir::{
    append_label,
    label_text,
    place_text,
    Operand,
    Place,
    Quad,
    Variable3ACType,
};
use crate::assembly::x86::{
    apply_binary,
    arg_register,
    condition,
    epilogue,
    find_symbol,
    flow_asm,
    ifz_lines,
    load_both,
    load_line,
    magic_call,
    print_routine,
    prologue,
    quad_asm,
    read_routine,
    resolve,
    resolve_place,
    runtime_asm,
    store_line,
    symbols_view,
    unary_line,
    value_asm,
    Resolved,
    SemanticSymbol,
    X86ErrorKind,
};
use crate::parser::ast::{BinaryExpKind, UnaryExpKind};
use crate::text::{append_i32, append_usize};

verus! {

/// Where a value is read from.
pub struct Source {
    pub magic: bool,
    pub loc: String,
    pub ty: Variable3ACType,
}

impl View for Source {
    type V = Resolved;

    open spec fn view(&self) -> Resolved {
        Resolved { magic: self.magic, loc: self.loc@, ty: self.ty }
    }
}

/// The view of a source that may not be there.
pub open spec fn opt_source_view(s: Option<Source>) -> Option<Resolved> {
    match s {
        Some(x) => Some(x@),
        None => None,
    }
}

/// Whether a translation did what `wanted` asks for: appended the assembly
/// and succeeded, or failed with its error and appended nothing.
pub open spec fn outcome(
    before: Seq<char>,
    now: Seq<char>,
    r: Result<(), X86ErrorKind>,
    wanted: Result<Seq<char>, X86ErrorKind>,
) -> bool {
    match wanted {
        Ok(t) => r is Ok && now == before + t,
        Err(k) => r == Err::<(), X86ErrorKind>(k) && now == before,
    }
}

/// The text of a place, without brackets.
pub fn place_name(p: &Place<String>) -> (s: String)
    ensures
        s@ == place_text(p@),
{
    match p {
        Place::Var(x) => x.clone(),
        Place::Tmp(i) => {
            let mut s = String::from_str("tmp");
            append_usize(&mut s, *i);
            s
        },
    }
}

/// The last symbol of the table that has the name `name`.
pub fn lookup<'a>(tab: &'a Vec<SemanticSymbol>, name: &String) -> (r: Option<&'a SemanticSymbol>)
    ensures
        match find_symbol(symbols_view(tab@), name@, tab@.len() as int) {
            Some(s) => r is Some && r->0@ == s,
            None => r is None,
        },
{
    let ghost t = symbols_view(tab@);
    let mut n: usize = tab.len();
    while n > 0
        invariant
            n <= tab@.len(),
            t == symbols_view(tab@),
            find_symbol(t, name@, tab@.len() as int) == find_symbol(t, name@, n as int),
        decreases n,
    {
        proof {
            assert(t[n - 1] == tab@[n - 1]@);
        }
        if tab[n - 1].name == *name {
            return Some(&tab[n - 1]);
        }
        n -= 1;
    }
    None
}

/// Where the value of a place is kept.
pub fn locate_place(tab: &Vec<SemanticSymbol>, p: &Place<String>) -> (r: Option<Source>)
    ensures
        opt_source_view(r) == resolve_place(symbols_view(tab@), p@),
{
    let name = place_name(p);
    match lookup(tab, &name) {
        Some(s) => Some(Source { magic: false, loc: s.location.clone(), ty: s.sym_type }),
        None => None,
    }
}

/// Where the value of an operand is read from.
pub fn locate(tab: &Vec<SemanticSymbol>, o: &Operand<String>) -> (r: Option<Source>)
    ensures
        opt_source_view(r) == resolve(symbols_view(tab@), o@),
{
    match o {
        Operand::Lit(n) => {
            let mut loc = String::from_str("$");
            append_i32(&mut loc, *n);
            Some(Source { magic: false, loc, ty: Variable3ACType::Int })
        },
        Operand::True => Some(
            Source { magic: false, loc: String::from_str("$1"), ty: Variable3ACType::Bool },
        ),
        Operand::False => Some(
            Source { magic: false, loc: String::from_str("$0"), ty: Variable3ACType::Bool },
        ),
        Operand::Magic => Some(
            Source { magic: true, loc: String::from_str("%rax"), ty: Variable3ACType::Bool },
        ),
        Operand::Str(i) => {
            let mut loc = String::from_str("$str");
            append_usize(&mut loc, *i);
            Some(Source { magic: false, loc, ty: Variable3ACType::String })
        },
        Operand::Sym(p) => locate_place(tab, p),
    }
}

/// Appends the lines that bring a value into the register `reg`.
pub fn append_load(out: &mut String, s: &Source, reg: &str)
    ensures
        final(out)@ == old(out)@ + load_line(s@, reg@),
{
    if s.magic {
        out.append("\tcallq magic\n");
    }
    let ghost s1 = out@;
    proof {
        assert(s1 =~= old(out)@ + magic_call(s@));
    }
    out.append("\tmovq ");
    out.append(s.loc.as_str());
    out.append(",\t");
    out.append(reg);
    out.append("\n");
    proof {
        assert(out@ =~= s1 + ("\tmovq "@ + s@.loc + ",\t"@ + reg@ + "\n"@));
        assert(out@ =~= old(out)@ + load_line(s@, reg@));
    }
}

/// Appends the line that stores `%rax` at a location.
pub fn append_store(out: &mut String, loc: &String)
    ensures
        final(out)@ == old(out)@ + store_line(loc@),
{
    out.append("\tmovq %rax,\t");
    out.append(loc.as_str());
    out.append("\n");
    proof {
        assert(out@ =~= old(out)@ + store_line(loc@));
    }
}

/// The condition code of a comparison operator.
pub fn condition_code(op: BinaryExpKind) -> (r: Option<&'static str>)
    ensures
        match condition(op) {
            Some(c) => r is Some && r->0@ == c,
            None => r is None,
        },
{
    match op {
        BinaryExpKind::Equals => Some("e"),
        BinaryExpKind::NotEquals => Some("ne"),
        BinaryExpKind::Less => Some("l"),
        BinaryExpKind::Greater => Some("g"),
        BinaryExpKind::GreaterEq => Some("ge"),
        BinaryExpKind::LessEq => Some("le"),
        _ => None,
    }
}

/// Appends the lines that apply a binary operator to `%rax` and `%rbx` and
/// store the result at `dest`.
pub fn append_binary(out: &mut String, op: BinaryExpKind, dest: &String)
    ensures
        final(out)@ == old(out)@ + apply_binary(op, dest@),
{
    match condition_code(op) {
        Some(cc) => {
            out.append("\tcmpq %rbx,\t%rax\n\tset");
            out.append(cc);
            out.append("\t\t%al\n\tmovb %al,\t");
            out.append(dest.as_str());
            out.append("\n");
            proof {
                assert(out@ =~= old(out)@ + apply_binary(op, dest@));
            }
        },
        None => {
            match op {
                BinaryExpKind::Plus => {
                    out.append("\taddq %rbx,\t%rax\n");
                },
                BinaryExpKind::Minus => {
                    out.append("\tsubq %rbx,\t%rax\n");
                },
                BinaryExpKind::And => {
                    out.append("\tandq %rbx,\t%rax\n");
                },
                BinaryExpKind::Or => {
                    out.append("\torq %rbx,\t%rax\n");
                },
                BinaryExpKind::Times => {
                    out.append("\timulq\t\t%rbx\n");
                },
                _ => {
                    out.append("\tcqto\n\tidivq\t\t%rbx\n");
                },
            }
            let ghost s1 = out@;
            append_store(out, dest);
            proof {
                assert(out@ =~= old(out)@ + apply_binary(op, dest@));
            }
        },
    }
}

/// The runtime routine that prints a value of the type `ty`.
pub fn print_name(ty: Variable3ACType) -> (s: &'static str)
    ensures
        s@ == print_routine(ty),
{
    match ty {
        Variable3ACType::Int => "printInt",
        Variable3ACType::Bool => "printBool",
        Variable3ACType::String => "printString",
    }
}

/// The runtime routine that reads a value of the type `ty`.
pub fn read_name(ty: Variable3ACType) -> (s: &'static str)
    ensures
        s@ == read_routine(ty),
{
    match ty {
        Variable3ACType::Int => "getInt",
        Variable3ACType::Bool => "getBool",
        Variable3ACType::String => "getString",
    }
}

/// The register of the argument `i`, counted from 1, if it has one.
pub fn arg_reg(i: usize) -> (r: Option<&'static str>)
    ensures
        match arg_register(i) {
            Some(c) => r is Some && r->0@ == c,
            None => r is None,
        },
{
    if i == 1 {
        Some("%rdi")
    } else if i == 2 {
        Some("%rsi")
    } else if i == 3 {
        Some("%rdx")
    } else if i == 4 {
        Some("%rcx")
    } else if i == 5 {
        Some("%r8")
    } else if i == 6 {
        Some("%r9")
    } else {
        None
    }
}

/// Translates an instruction that moves or computes a value.
pub fn translate_assign(q: &Quad<String>, tab: &Vec<SemanticSymbol>, out: &mut String) -> (r: Result<
    (),
    X86ErrorKind,
>)
    ensures
        outcome(old(out)@, final(out)@, r, value_asm(q@, symbols_view(tab@))),
{
    proof {
        assert(out@ =~= out@ + Seq::<char>::empty());
    }
    match q {
        Quad::Assign { dest, src } => {
            let d = locate_place(tab, dest);
            let s = locate(tab, src);
            match (d, s) {
                (Some(d), Some(s)) => {
                    match src {
                        Operand::Lit(_) => {
                            out.append("\tmovq ");
                            out.append(s.loc.as_str());
                            out.append(",\t");
                            out.append(d.loc.as_str());
                            out.append("\n");
                            proof {
                                assert(out@ =~= old(out)@ + ("\tmovq "@ + s@.loc + ",\t"@ + d@.loc
                                    + "\n"@));
                            }
                        },
                        _ => {
                            append_load(out, &s, "%rax");
                            append_store(out, &d.loc);
                            proof {
                                assert(out@ =~= old(out)@ + (load_line(s@, "%rax"@) + store_line(
                                    d@.loc,
                                )));
                            }
                        },
                    }
                    Ok(())
                },
                _ => Err(X86ErrorKind::UnknownSymbol),
            }
        },
        Quad::Unary { dest, op, src } => {
            let d = locate_place(tab, dest);
            let s = locate(tab, src);
            match (d, s) {
                (Some(d), Some(s)) => {
                    append_load(out, &s, "%rax");
                    match op {
                        UnaryExpKind::Neg => {
                            out.append("\tnegq %rax\n");
                        },
                        UnaryExpKind::Not => {
                            out.append("\txorq $1,\t%rax\n");
                        },
                    }
                    append_store(out, &d.loc);
                    proof {
                        assert(out@ =~= old(out)@ + (load_line(s@, "%rax"@) + unary_line(*op) + store_line(
                            d@.loc,
                        )));
                    }
                    Ok(())
                },
                _ => Err(X86ErrorKind::UnknownSymbol),
            }
        },
        Quad::Binary { dest, lhs, op, rhs } => {
            let d = locate_place(tab, dest);
            let l = locate(tab, lhs);
            let r = locate(tab, rhs);
            match (d, l, r) {
                (Some(d), Some(l), Some(r)) => {
                    if r.magic {
                        append_load(out, &r, "%rbx");
                        append_load(out, &l, "%rax");
                    } else {
                        append_load(out, &l, "%rax");
                        append_load(out, &r, "%rbx");
                    }
                    let ghost s1 = out@;
                    proof {
                        assert(s1 =~= old(out)@ + load_both(l@, r@));
                    }
                    append_binary(out, *op, &d.loc);
                    proof {
                        assert(out@ =~= old(out)@ + (load_both(l@, r@) + apply_binary(*op, d@.loc)));
                    }
                    Ok(())
                },
                _ => Err(X86ErrorKind::UnknownSymbol),
            }
        },
        Quad::GetRet { dest } => {
            match locate_place(tab, dest) {
                Some(d) => {
                    append_store(out, &d.loc);
                    Ok(())
                },
                None => Err(X86ErrorKind::UnknownSymbol),
            }
        },
        Quad::SetRet { src } => {
            match locate(tab, src) {
                Some(s) => {
                    append_load(out, &s, "%rax");
                    Ok(())
                },
                None => Err(X86ErrorKind::UnknownSymbol),
            }
        },
        _ => Err(X86ErrorKind::Malformed),
    }
}

/// Translates `WRITE` and `READ`.
pub fn translate_io(q: &Quad<String>, tab: &Vec<SemanticSymbol>, out: &mut String) -> (r: Result<
    (),
    X86ErrorKind,
>)
    requires
        q is Write || q is Read,
    ensures
        outcome(old(out)@, final(out)@, r, runtime_asm(q@, symbols_view(tab@))),
{
    match q {
        Quad::Write { src } => {
            match locate(tab, src) {
                Some(s) => {
                    append_load(out, &s, "%rdi");
                    let ghost s1 = out@;
                    out.append("\tcallq ");
                    out.append(print_name(s.ty));
                    out.append("\n");
                    proof {
                        assert(out@ =~= s1 + ("\tcallq "@ + print_routine(s@.ty) + "\n"@));
                        assert(out@ =~= old(out)@ + (load_line(s@, "%rdi"@) + "\tcallq "@ + print_routine(
                            s@.ty,
                        ) + "\n"@));
                    }
                    Ok(())
                },
                None => Err(X86ErrorKind::UnknownSymbol),
            }
        },
        Quad::Read { dest } => {
            match locate_place(tab, dest) {
                Some(d) => {
                    out.append("\tcallq ");
                    out.append(read_name(d.ty));
                    out.append("\n");
                    let ghost s1 = out@;
                    proof {
                        assert(s1 =~= old(out)@ + ("\tcallq "@ + read_routine(d@.ty) + "\n"@));
                    }
                    append_store(out, &d.loc);
                    proof {
                        assert(out@ =~= old(out)@ + ("\tcallq "@ + read_routine(d@.ty) + "\n"@
                            + store_line(d@.loc)));
                    }
                    Ok(())
                },
                None => Err(X86ErrorKind::UnknownSymbol),
            }
        },
        _ => Err(X86ErrorKind::Malformed),
    }
}

/// Translates `setarg`, `getarg`, `call` and `exit`.
pub fn translate_call(q: &Quad<String>, tab: &Vec<SemanticSymbol>, out: &mut String) -> (r: Result<
    (),
    X86ErrorKind,
>)
    requires
        q is SetArg || q is GetArg || q is Call || q is Exit,
    ensures
        outcome(old(out)@, final(out)@, r, runtime_asm(q@, symbols_view(tab@))),
{
    match q {
        Quad::SetArg { index, src } => {
            match arg_reg(*index) {
                Some(reg) => match locate(tab, src) {
                    Some(s) => {
                        append_load(out, &s, reg);
                        Ok(())
                    },
                    None => Err(X86ErrorKind::UnknownSymbol),
                },
                None => Err(X86ErrorKind::TooManyArguments),
            }
        },
        Quad::GetArg { index, dest } => {
            match arg_reg(*index) {
                Some(reg) => match locate_place(tab, dest) {
                    Some(d) => {
                        out.append("\tmovq ");
                        out.append(reg);
                        out.append(",\t");
                        out.append(d.loc.as_str());
                        out.append("\n");
                        proof {
                            assert(out@ =~= old(out)@ + ("\tmovq "@ + reg@ + ",\t"@ + d@.loc + "\n"@));
                        }
                        Ok(())
                    },
                    None => Err(X86ErrorKind::UnknownSymbol),
                },
                None => Err(X86ErrorKind::TooManyArguments),
            }
        },
        Quad::Call { name } => {
            out.append("\tcallq ");
            out.append(name.as_str());
            out.append("\n");
            proof {
                assert(out@ =~= old(out)@ + ("\tcallq "@ + name@ + "\n"@));
            }
            Ok(())
        },
        Quad::Exit => {
            out.append("\tmovq $60,\t%rax\n\tmovq $1,\t%rdi\n\t\n\tsyscall\n");
            Ok(())
        },
        _ => Err(X86ErrorKind::Malformed),
    }
}

/// The prologue of a function with `num_locs` locals and temporaries.
pub fn function_prologue(num_locs: usize) -> (s: String)
    requires
        8 * num_locs <= usize::MAX,
    ensures
        s@ == prologue(num_locs as nat),
{
    let mut s = String::from_str("\tpushq %rbp\n\tmovq %rsp,\t%rbp\n\taddq $16,\t%rbp\n\tsubq $");
    append_usize(&mut s, 8 * num_locs);
    s.append(",\t%rsp");
    s
}

/// The epilogue of a function with `num_locs` locals and temporaries.
pub fn function_epilogue(num_locs: usize) -> (s: String)
    requires
        8 * num_locs <= usize::MAX,
    ensures
        s@ == epilogue(num_locs as nat),
{
    let mut s = String::from_str("\taddq $");
    append_usize(&mut s, 8 * num_locs);
    s.append(",\t%rsp\n\tpopq %rbp\n\tretq");
    s
}

/// Translates an instruction of control flow.
pub fn translate_flow(
    q: &Quad<String>,
    tab: &Vec<SemanticSymbol>,
    slots: usize,
    out: &mut String,
) -> (r: Result<(), X86ErrorKind>)
    requires
        8 * slots <= usize::MAX,
    ensures
        outcome(old(out)@, final(out)@, r, flow_asm(q@, symbols_view(tab@), slots as nat)),
{
    match q {
        Quad::Ifz { cond, target } => {
            match locate(tab, cond) {
                Some(c) => {
                    if c.magic {
                        out.append("\tcallq magic\n");
                    } else {
                        out.append("\tmovb ");
                        out.append(c.loc.as_str());
                        out.append(",\t%al\n");
                    }
                    let ghost s1 = out@;
                    proof {
                        assert(s1 =~= old(out)@ + (if c@.magic {
                            "\tcallq magic\n"@
                        } else {
                            "\tmovb "@ + c@.loc + ",\t%al\n"@
                        }));
                    }
                    out.append("\tcmpb $0,\t%al\n\tje\t\t");
                    append_label(out, *target);
                    out.append("\n");
                    proof {
                        assert(out@ =~= s1 + ("\tcmpb $0,\t%al\n\tje\t\t"@ + label_text(*target) + "\n"@));
                        assert(out@ =~= old(out)@ + ifz_lines(c@, *target));
                    }
                    Ok(())
                },
                None => Err(X86ErrorKind::UnknownSymbol),
            }
        },
        Quad::Goto { target } => {
            out.append("\tjmp\t\t");
            append_label(out, *target);
            out.append("\n");
            proof {
                assert(out@ =~= old(out)@ + ("\tjmp\t\t"@ + label_text(*target) + "\n"@));
            }
            Ok(())
        },
        Quad::Label { label } => {
            append_label(out, *label);
            out.append(":\tnop\n");
            proof {
                assert(out@ =~= old(out)@ + (label_text(*label) + ":\tnop\n"@));
            }
            Ok(())
        },
        Quad::Enter { name } => {
            out.append(name.as_str());
            out.append(":");
            out.append(function_prologue(slots).as_str());
            out.append("\n");
            proof {
                assert(out@ =~= old(out)@ + (name@ + ":"@ + prologue(slots as nat) + "\n"@));
            }
            Ok(())
        },
        Quad::Leave { label, name } => {
            append_label(out, *label);
            out.append(":");
            out.append(function_epilogue(slots).as_str());
            out.append("\n");
            proof {
                assert(out@ =~= old(out)@ + (label_text(*label) + ":"@ + epilogue(slots as nat)
                    + "\n"@));
            }
            Ok(())
        },
        _ => Err(X86ErrorKind::Malformed),
    }
}

/// Translates one instruction: appends its assembly to `out`, or fails
/// and leaves `out` as it is.
pub fn translate_statement(
    q: &Quad<String>,
    tab: &Vec<SemanticSymbol>,
    slots: usize,
    out: &mut String,
) -> (r: Result<(), X86ErrorKind>)
    requires
        8 * slots <= usize::MAX,
    ensures
        outcome(old(out)@, final(out)@, r, quad_asm(q@, symbols_view(tab@), slots as nat)),
{
    match q {
        Quad::Assign { .. } | Quad::Unary { .. } | Quad::Binary { .. } | Quad::GetRet { .. } | Quad::SetRet { .. } => translate_assign(
            q,
            tab,
            out,
        ),
        Quad::Write { .. } | Quad::Read { .. } => translate_io(q, tab, out),
        Quad::SetArg { .. } | Quad::GetArg { .. } | Quad::Call { .. } | Quad::Exit => translate_call(
            q,
            tab,
            out,
        ),
        _ => translate_flow(q, tab, slots, out),
    }
}

} // verus!
