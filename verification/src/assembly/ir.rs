//! The three-address instructions and their text.
//!
//! One instruction stands on one line. A line that defines a label starts
//! with the label and a colon; every other line starts with a tab.
//!
//! ```text
//! [x] := src              [x] := OP src           [x] := lhs OP rhs
//! WRITE src               READ [x]
//! IFZ cond goto lbl_N     goto lbl_N              lbl_N:  nop
//! setarg i src            getarg i [x]            call f
//! getret [x]              setret src              exit
//! f:      enter f         lbl_N:  leave f
//! ```
//!
//! `setarg i src` hands `src` to the callee as its `i`-th argument, counted
//! from 1; all the `setarg`s of a call stand just before its `call`.
//! `getarg i [x]` stores the `i`-th argument in the formal `x`; the
//! `getarg`s of a function stand just after its `enter`.
//!
//! `[x]` names a global, a local or a temporary (`tmpN`); an operand
//! without brackets is a number, `true`, `false`, `24Kmagic`, or the `strN`
//! of a string of the pool.

use vstd::prelude::*;
use vstd::string::*;
use crate::parser::ast::{BinaryExpKind, UnaryExpKind};
use crate::text::{append_i32, append_usize, decimal, signed_decimal};

verus! {

/// The type of a global, a local or a temporary.
#[derive(Debug, Clone, Copy, PartialEq, Eq, Structural)]
pub enum Variable3ACType {
    Int,
    Bool,
    String,
}

/// Symbolic storage: a named variable, or the temporary of a number.
#[derive(Debug, PartialEq)]
pub enum Place<S> {
    Var(S),
    Tmp(usize),
}

/// What an instruction reads.
#[derive(Debug, PartialEq)]
pub enum Operand<S> {
    Lit(i32),
    True,
    False,
    Magic,
    /// The string of the pool at this index.
    Str(usize),
    Sym(Place<S>),
}

/// One three-address instruction.
#[derive(Debug, PartialEq)]
pub enum Quad<S> {
    Assign { dest: Place<S>, src: Operand<S> },
    Unary { dest: Place<S>, op: UnaryExpKind, src: Operand<S> },
    Binary { dest: Place<S>, lhs: Operand<S>, op: BinaryExpKind, rhs: Operand<S> },
    Write { src: Operand<S> },
    Read { dest: Place<S> },
    Ifz { cond: Operand<S>, target: usize },
    Goto { target: usize },
    Label { label: usize },
    SetArg { index: usize, src: Operand<S> },
    GetArg { index: usize, dest: Place<S> },
    Call { name: S },
    GetRet { dest: Place<S> },
    SetRet { src: Operand<S> },
    Exit,
    Enter { name: S },
    Leave { label: usize, name: S },
}

impl View for Place<String> {
    type V = Place<Seq<char>>;

    open spec fn view(&self) -> Place<Seq<char>> {
        match self {
            Place::Var(s) => Place::Var(s@),
            Place::Tmp(i) => Place::Tmp(*i),
        }
    }
}

impl View for Operand<String> {
    type V = Operand<Seq<char>>;

    open spec fn view(&self) -> Operand<Seq<char>> {
        match self {
            Operand::Lit(n) => Operand::Lit(*n),
            Operand::True => Operand::True,
            Operand::False => Operand::False,
            Operand::Magic => Operand::Magic,
            Operand::Str(i) => Operand::Str(*i),
            Operand::Sym(p) => Operand::Sym(p@),
        }
    }
}

impl View for Quad<String> {
    type V = Quad<Seq<char>>;

    open spec fn view(&self) -> Quad<Seq<char>> {
        match self {
            Quad::Assign { dest, src } => Quad::Assign { dest: dest@, src: src@ },
            Quad::Unary { dest, op, src } => Quad::Unary { dest: dest@, op: *op, src: src@ },
            Quad::Binary { dest, lhs, op, rhs } => Quad::Binary {
                dest: dest@,
                lhs: lhs@,
                op: *op,
                rhs: rhs@,
            },
            Quad::Write { src } => Quad::Write { src: src@ },
            Quad::Read { dest } => Quad::Read { dest: dest@ },
            Quad::Ifz { cond, target } => Quad::Ifz { cond: cond@, target: *target },
            Quad::Goto { target } => Quad::Goto { target: *target },
            Quad::Label { label } => Quad::Label { label: *label },
            Quad::SetArg { index, src } => Quad::SetArg { index: *index, src: src@ },
            Quad::GetArg { index, dest } => Quad::GetArg { index: *index, dest: dest@ },
            Quad::Call { name } => Quad::Call { name: name@ },
            Quad::GetRet { dest } => Quad::GetRet { dest: dest@ },
            Quad::SetRet { src } => Quad::SetRet { src: src@ },
            Quad::Exit => Quad::Exit,
            Quad::Enter { name } => Quad::Enter { name: name@ },
            Quad::Leave { label, name } => Quad::Leave { label: *label, name: name@ },
        }
    }
}

/// The views of a list of instructions.
pub open spec fn quads_view(v: Seq<Quad<String>>) -> Seq<Quad<Seq<char>>> {
    Seq::new(v.len(), |i: int| v[i]@)
}

impl Variable3ACType {
    /// The name of the type.
    pub open spec fn spec_text(self) -> Seq<char> {
        match self {
            Variable3ACType::Int => "int"@,
            Variable3ACType::Bool => "bool"@,
            Variable3ACType::String => "string"@,
        }
    }

    /// The name of the type.
    pub fn text(&self) -> (s: &'static str)
        ensures
            s@ == self.spec_text(),
    {
        match self {
            Variable3ACType::Int => "int",
            Variable3ACType::Bool => "bool",
            Variable3ACType::String => "string",
        }
    }
}

/// The name of a unary operator.
pub open spec fn unary_op_text(op: UnaryExpKind) -> Seq<char> {
    match op {
        UnaryExpKind::Not => "NOT64"@,
        UnaryExpKind::Neg => "NEG64"@,
    }
}

/// The name of a binary operator.
pub open spec fn binary_op_text(op: BinaryExpKind) -> Seq<char> {
    match op {
        BinaryExpKind::And => "AND64"@,
        BinaryExpKind::Or => "OR64"@,
        BinaryExpKind::Equals => "EQ64"@,
        BinaryExpKind::NotEquals => "NEQ64"@,
        BinaryExpKind::Greater => "GT64"@,
        BinaryExpKind::Less => "LT64"@,
        BinaryExpKind::GreaterEq => "GTE64"@,
        BinaryExpKind::LessEq => "LTE64"@,
        BinaryExpKind::Plus => "ADD64"@,
        BinaryExpKind::Minus => "SUB64"@,
        BinaryExpKind::Times => "MULT64"@,
        BinaryExpKind::Divide => "DIV64"@,
    }
}

/// The name of a label.
pub open spec fn label_text(n: usize) -> Seq<char> {
    "lbl_"@ + decimal(n as nat)
}

/// The text of a place, without brackets.
pub open spec fn place_text(p: Place<Seq<char>>) -> Seq<char> {
    match p {
        Place::Var(s) => s,
        Place::Tmp(i) => "tmp"@ + decimal(i as nat),
    }
}

/// The text of a place as an instruction names it: between brackets.
pub open spec fn sym_text(p: Place<Seq<char>>) -> Seq<char> {
    "["@ + place_text(p) + "]"@
}

/// The text of an operand.
pub open spec fn operand_text(o: Operand<Seq<char>>) -> Seq<char> {
    match o {
        Operand::Lit(n) => signed_decimal(n as int),
        Operand::True => "true"@,
        Operand::False => "false"@,
        Operand::Magic => "24Kmagic"@,
        Operand::Str(i) => "str"@ + decimal(i as nat),
        Operand::Sym(p) => sym_text(p),
    }
}

/// The line of an instruction, without the line feed.
pub open spec fn quad_text(q: Quad<Seq<char>>) -> Seq<char> {
    match q {
        Quad::Assign { dest, src } => "\t"@ + sym_text(dest) + " := "@ + operand_text(src),
        Quad::Unary { dest, op, src } => "\t"@ + sym_text(dest) + " := "@ + unary_op_text(op)
            + " "@ + operand_text(src),
        Quad::Binary { dest, lhs, op, rhs } => "\t"@ + sym_text(dest) + " := "@ + operand_text(lhs)
            + " "@ + binary_op_text(op) + " "@ + operand_text(rhs),
        Quad::Write { src } => "\tWRITE "@ + operand_text(src),
        Quad::Read { dest } => "\tREAD "@ + sym_text(dest),
        Quad::Ifz { cond, target } => "\tIFZ "@ + operand_text(cond) + " goto "@ + label_text(
            target,
        ),
        Quad::Goto { target } => "\tgoto "@ + label_text(target),
        Quad::Label { label } => label_text(label) + ":\tnop"@,
        Quad::SetArg { index, src } => "\tsetarg "@ + decimal(index as nat) + " "@ + operand_text(
            src,
        ),
        Quad::GetArg { index, dest } => "\tgetarg "@ + decimal(index as nat) + " "@ + sym_text(dest),
        Quad::Call { name } => "\tcall "@ + name,
        Quad::GetRet { dest } => "\tgetret "@ + sym_text(dest),
        Quad::SetRet { src } => "\tsetret "@ + operand_text(src),
        Quad::Exit => "\texit"@,
        Quad::Enter { name } => name + ":\tenter "@ + name,
        Quad::Leave { label, name } => label_text(label) + ":\tleave "@ + name,
    }
}

/// The lines of the instructions `q[..n]`, each with its line feed.
pub open spec fn quads_text(q: Seq<Quad<Seq<char>>>, n: int) -> Seq<char>
    decreases n,
{
    if n <= 0 || n > q.len() {
        Seq::empty()
    } else {
        quads_text(q, n - 1) + quad_text(q[n - 1]) + "\n"@
    }
}

/// The name of a unary operator.
pub fn unary_op_name(op: UnaryExpKind) -> (s: &'static str)
    ensures
        s@ == unary_op_text(op),
{
    match op {
        UnaryExpKind::Not => "NOT64",
        UnaryExpKind::Neg => "NEG64",
    }
}

/// The name of a binary operator.
pub fn binary_op_name(op: BinaryExpKind) -> (s: &'static str)
    ensures
        s@ == binary_op_text(op),
{
    match op {
        BinaryExpKind::And => "AND64",
        BinaryExpKind::Or => "OR64",
        BinaryExpKind::Equals => "EQ64",
        BinaryExpKind::NotEquals => "NEQ64",
        BinaryExpKind::Greater => "GT64",
        BinaryExpKind::Less => "LT64",
        BinaryExpKind::GreaterEq => "GTE64",
        BinaryExpKind::LessEq => "LTE64",
        BinaryExpKind::Plus => "ADD64",
        BinaryExpKind::Minus => "SUB64",
        BinaryExpKind::Times => "MULT64",
        BinaryExpKind::Divide => "DIV64",
    }
}

/// Appends the name of a label to `out`.
pub fn append_label(out: &mut String, n: usize)
    ensures
        final(out)@ == old(out)@ + label_text(n),
{
    out.append("lbl_");
    append_usize(out, n);
    proof {
        assert(final(out)@ =~= old(out)@ + label_text(n));
    }
}

/// Appends a place between brackets to `out`.
pub fn append_sym(out: &mut String, p: &Place<String>)
    ensures
        final(out)@ == old(out)@ + sym_text(p@),
{
    out.append("[");
    match p {
        Place::Var(s) => {
            out.append(s.as_str());
        },
        Place::Tmp(i) => {
            out.append("tmp");
            append_usize(out, *i);
        },
    }
    out.append("]");
    proof {
        assert(final(out)@ =~= old(out)@ + sym_text(p@));
    }
}

/// Appends an operand to `out`.
pub fn append_operand(out: &mut String, o: &Operand<String>)
    ensures
        final(out)@ == old(out)@ + operand_text(o@),
{
    match o {
        Operand::Lit(n) => {
            append_i32(out, *n);
        },
        Operand::True => {
            out.append("true");
        },
        Operand::False => {
            out.append("false");
        },
        Operand::Magic => {
            out.append("24Kmagic");
        },
        Operand::Str(i) => {
            out.append("str");
            append_usize(out, *i);
            proof {
                assert(final(out)@ =~= old(out)@ + operand_text(o@));
            }
        },
        Operand::Sym(p) => {
            append_sym(out, p);
        },
    }
}

/// Appends the line of an instruction to `out`, without the line feed.
pub fn append_quad(out: &mut String, q: &Quad<String>)
    ensures
        final(out)@ == old(out)@ + quad_text(q@),
{
    match q {
        Quad::Assign { dest, src } => {
            out.append("\t");
            append_sym(out, dest);
            out.append(" := ");
            append_operand(out, src);
        },
        Quad::Unary { dest, op, src } => {
            out.append("\t");
            append_sym(out, dest);
            out.append(" := ");
            out.append(unary_op_name(*op));
            out.append(" ");
            append_operand(out, src);
        },
        Quad::Binary { dest, lhs, op, rhs } => {
            out.append("\t");
            append_sym(out, dest);
            out.append(" := ");
            append_operand(out, lhs);
            out.append(" ");
            out.append(binary_op_name(*op));
            out.append(" ");
            append_operand(out, rhs);
        },
        Quad::Write { src } => {
            out.append("\tWRITE ");
            append_operand(out, src);
        },
        Quad::Read { dest } => {
            out.append("\tREAD ");
            append_sym(out, dest);
        },
        Quad::Ifz { cond, target } => {
            out.append("\tIFZ ");
            append_operand(out, cond);
            out.append(" goto ");
            append_label(out, *target);
        },
        Quad::Goto { target } => {
            out.append("\tgoto ");
            append_label(out, *target);
        },
        Quad::Label { label } => {
            append_label(out, *label);
            out.append(":\tnop");
        },
        Quad::SetArg { index, src } => {
            out.append("\tsetarg ");
            append_usize(out, *index);
            out.append(" ");
            append_operand(out, src);
        },
        Quad::GetArg { index, dest } => {
            out.append("\tgetarg ");
            append_usize(out, *index);
            out.append(" ");
            append_sym(out, dest);
        },
        Quad::Call { name } => {
            out.append("\tcall ");
            out.append(name.as_str());
        },
        Quad::GetRet { dest } => {
            out.append("\tgetret ");
            append_sym(out, dest);
        },
        Quad::SetRet { src } => {
            out.append("\tsetret ");
            append_operand(out, src);
        },
        Quad::Exit => {
            out.append("\texit");
        },
        Quad::Enter { name } => {
            out.append(name.as_str());
            out.append(":\tenter ");
            out.append(name.as_str());
        },
        Quad::Leave { label, name } => {
            append_label(out, *label);
            out.append(":\tleave ");
            out.append(name.as_str());
        },
    }
    proof {
        assert(final(out)@ =~= old(out)@ + quad_text(q@));
    }
}

/// Appends the lines of the instructions `code[from..to]` to `out`, each
/// with its line feed.
pub fn append_quads(out: &mut String, code: &Vec<Quad<String>>, from: usize, to: usize)
    requires
        from <= to <= code@.len(),
    ensures
        final(out)@ == old(out)@ + quads_text(
            quads_view(code@).subrange(from as int, to as int),
            to - from,
        ),
{
    let ghost part = quads_view(code@).subrange(from as int, to as int);
    let mut i: usize = from;
    proof {
        assert(out@ =~= old(out)@ + quads_text(part, 0));
    }
    while i < to
        invariant
            from <= i <= to <= code@.len(),
            part == quads_view(code@).subrange(from as int, to as int),
            out@ == old(out)@ + quads_text(part, i - from),
        decreases to - i,
    {
        let ghost before = out@;
        append_quad(out, &code[i]);
        out.append("\n");
        proof {
            assert(part[i - from] == code@[i as int]@);
            assert(out@ =~= old(out)@ + quads_text(part, i - from + 1));
        }
        i += 1;
    }
}

} // verus!
