//! From three-address instructions to x86-64 assembly (AT&T syntax).
//!
//! A function keeps its locals and temporaries in consecutive 8-byte slots
//! below the frame pointer: slot `i`, counted from 0, is at
//! `-(24 + 8 i)(%rbp)`. The prologue reserves 8 bytes for each slot and the
//! epilogue frees them. Values go through `%rax`, second operands through
//! `%rbx`. The first six arguments of a call travel in `%rdi`, `%rsi`,
//! `%rdx`, `%rcx`, `%r8` and `%r9`; a seventh is an error.

use vstd::prelude::*;
use vstd::string::*;
use crate::assembly::ir::{
    label_text,
    place_text,
    Operand,
    Place,
    Quad,
    Variable3ACType,
};
use crate::assembly::three_ac::{Instr, Value};
use crate::parser::ast::{BinaryExpKind, UnaryExpKind};
use crate::text::{decimal, signed_decimal};

verus! {

/// What the backend knows of a name: where its value is kept, whether it
/// is a global, and its type.
#[derive(Debug, PartialEq)]
pub struct SemanticSymbol {
    pub name: String,
    pub location: String,
    pub global: bool,
    pub sym_type: Variable3ACType,
}

/// What the backend knows of a name, over plain text.
pub struct SymbolView {
    pub name: Seq<char>,
    pub location: Seq<char>,
    pub global: bool,
    pub sym_type: Variable3ACType,
}

impl View for SemanticSymbol {
    type V = SymbolView;

    open spec fn view(&self) -> SymbolView {
        SymbolView {
            name: self.name@,
            location: self.location@,
            global: self.global,
            sym_type: self.sym_type,
        }
    }
}

/// The views of a list of symbols.
pub open spec fn symbols_view(v: Seq<SemanticSymbol>) -> Seq<SymbolView> {
    Seq::new(v.len(), |i: int| v[i]@)
}

/// Why text is not three-address code that the backend can lower.
#[derive(Debug, Clone, Copy, PartialEq, Eq, Structural)]
pub enum X86ErrorKind {
    /// A line is none of the lines of three-address code, or stands where
    /// it cannot stand.
    Malformed,
    /// An instruction names a symbol that is not declared.
    UnknownSymbol,
    /// A call hands over, or a function takes, a seventh argument.
    TooManyArguments,
    /// A function has more locals than its frame can address.
    TooManyLocals,
}

/// What is wrong, and on which line, counted from 0.
#[derive(Debug, Clone, Copy, PartialEq, Eq, Structural)]
pub struct X86Error {
    pub kind: X86ErrorKind,
    pub line: usize,
}

/// The last of the symbols `tab[..n]` that has the name `name`.
pub open spec fn find_symbol(tab: Seq<SymbolView>, name: Seq<char>, n: int) -> Option<SymbolView>
    decreases n,
{
    if n <= 0 || n > tab.len() {
        None
    } else if tab[n - 1].name == name {
        Some(tab[n - 1])
    } else {
        find_symbol(tab, name, n - 1)
    }
}

/// Where a value is read from: its location, its type, and whether the
/// runtime routine `magic` has to be called first, whose result the
/// location then is.
pub struct Resolved {
    pub magic: bool,
    pub loc: Seq<char>,
    pub ty: Variable3ACType,
}

/// Where the value of a place is kept.
pub open spec fn resolve_place(tab: Seq<SymbolView>, p: Place<Seq<char>>) -> Option<Resolved> {
    match find_symbol(tab, place_text(p), tab.len() as int) {
        Some(s) => Some(Resolved { magic: false, loc: s.location, ty: s.sym_type }),
        None => None,
    }
}

/// Where the value of an operand is read from: an immediate for a number,
/// `$1` and `$0` for `true` and `false`, the address of the string for a
/// string of the pool, the result register of `magic` for `24Kmagic`, and
/// the location in the symbol table for a place.
pub open spec fn resolve(tab: Seq<SymbolView>, o: Value) -> Option<Resolved> {
    match o {
        Operand::Lit(n) => Some(
            Resolved { magic: false, loc: "$"@ + signed_decimal(n as int), ty: Variable3ACType::Int },
        ),
        Operand::True => Some(Resolved { magic: false, loc: "$1"@, ty: Variable3ACType::Bool }),
        Operand::False => Some(Resolved { magic: false, loc: "$0"@, ty: Variable3ACType::Bool }),
        Operand::Magic => Some(Resolved { magic: true, loc: "%rax"@, ty: Variable3ACType::Bool }),
        Operand::Str(i) => Some(
            Resolved { magic: false, loc: "$str"@ + decimal(i as nat), ty: Variable3ACType::String },
        ),
        Operand::Sym(p) => resolve_place(tab, p),
    }
}

/// The call of `magic`, when the value asks for it.
pub open spec fn magic_call(r: Resolved) -> Seq<char> {
    if r.magic {
        "\tcallq magic\n"@
    } else {
        Seq::empty()
    }
}

/// The text that brings a value into the register `reg`: the call of
/// `magic` on a line of its own when the value asks for it, and the move,
/// without a line feed after it.
pub open spec fn load(r: Resolved, reg: Seq<char>) -> Seq<char> {
    magic_call(r) + "\tmovq "@ + r.loc + ",\t"@ + reg
}

/// The line that brings a value into the register `reg`.
pub open spec fn load_line(r: Resolved, reg: Seq<char>) -> Seq<char> {
    load(r, reg) + "\n"@
}

/// The lines that bring the left operand into `%rax` and the right one
/// into `%rbx`: the left one first, unless the right one is the result of
/// `magic`, which comes in `%rax` and has to be moved on before `%rax` is
/// loaded.
pub open spec fn load_both(l: Resolved, r: Resolved) -> Seq<char> {
    if r.magic {
        load_line(r, "%rbx"@) + load_line(l, "%rax"@)
    } else {
        load_line(l, "%rax"@) + load_line(r, "%rbx"@)
    }
}

/// The text that stores `%rax` at a location, without a line feed after
/// it.
pub open spec fn store(loc: Seq<char>) -> Seq<char> {
    "\tmovq %rax,\t"@ + loc
}

/// The line that stores `%rax` at a location.
pub open spec fn store_line(loc: Seq<char>) -> Seq<char> {
    store(loc) + "\n"@
}

/// The lines of a direct assignment: a number is moved to the location as
/// an immediate; any other value goes through `%rax`.
pub open spec fn move_lines(number: bool, s: Resolved, dest: Seq<char>) -> Seq<char> {
    if number {
        "\tmovq "@ + s.loc + ",\t"@ + dest + "\n"@
    } else {
        load_line(s, "%rax"@) + store_line(dest)
    }
}

/// The line that applies a unary operator to `%rax`.
pub open spec fn unary_line(op: UnaryExpKind) -> Seq<char> {
    match op {
        UnaryExpKind::Neg => "\tnegq %rax\n"@,
        UnaryExpKind::Not => "\txorq $1,\t%rax\n"@,
    }
}

/// The condition code of a comparison operator.
pub open spec fn condition(op: BinaryExpKind) -> Option<Seq<char>> {
    match op {
        BinaryExpKind::Equals => Some("e"@),
        BinaryExpKind::NotEquals => Some("ne"@),
        BinaryExpKind::Less => Some("l"@),
        BinaryExpKind::Greater => Some("g"@),
        BinaryExpKind::GreaterEq => Some("ge"@),
        BinaryExpKind::LessEq => Some("le"@),
        _ => None,
    }
}

/// The lines that apply a binary operator to `%rax` and `%rbx` and store
/// the result at `dest`.
///
/// Addition, subtraction and the logical operators work on the two
/// registers and leave the result in `%rax`. Multiplication and division
/// are the one-operand forms, which pair `%rax` with `%rdx`; division
/// extends the sign into `%rdx` first. A comparison compares the two
/// registers, sets the low byte of `%rax` by its condition code and stores
/// that byte.
pub open spec fn apply_binary(op: BinaryExpKind, dest: Seq<char>) -> Seq<char> {
    match op {
        BinaryExpKind::Plus => "\taddq %rbx,\t%rax\n"@ + store_line(dest),
        BinaryExpKind::Minus => "\tsubq %rbx,\t%rax\n"@ + store_line(dest),
        BinaryExpKind::And => "\tandq %rbx,\t%rax\n"@ + store_line(dest),
        BinaryExpKind::Or => "\torq %rbx,\t%rax\n"@ + store_line(dest),
        BinaryExpKind::Times => "\timulq\t\t%rbx\n"@ + store_line(dest),
        BinaryExpKind::Divide => "\tcqto\n\tidivq\t\t%rbx\n"@ + store_line(dest),
        _ => "\tcmpq %rbx,\t%rax\n\tset"@ + condition(op).unwrap() + "\t\t%al\n\tmovb %al,\t"@ + dest
            + "\n"@,
    }
}

/// The runtime routine that prints a value of the type `ty`.
pub open spec fn print_routine(ty: Variable3ACType) -> Seq<char> {
    match ty {
        Variable3ACType::Int => "printInt"@,
        Variable3ACType::Bool => "printBool"@,
        Variable3ACType::String => "printString"@,
    }
}

/// The runtime routine that reads a value of the type `ty`.
pub open spec fn read_routine(ty: Variable3ACType) -> Seq<char> {
    match ty {
        Variable3ACType::Int => "getInt"@,
        Variable3ACType::Bool => "getBool"@,
        Variable3ACType::String => "getString"@,
    }
}

/// The register of the argument `i`, counted from 1, if it has one.
pub open spec fn arg_register(i: usize) -> Option<Seq<char>> {
    if i == 1 {
        Some("%rdi"@)
    } else if i == 2 {
        Some("%rsi"@)
    } else if i == 3 {
        Some("%rdx"@)
    } else if i == 4 {
        Some("%rcx"@)
    } else if i == 5 {
        Some("%r8"@)
    } else if i == 6 {
        Some("%r9"@)
    } else {
        None
    }
}

/// The lines that test a value against zero and jump to `target` if it is
/// zero.
pub open spec fn ifz_lines(c: Resolved, target: usize) -> Seq<char> {
    (if c.magic {
        "\tcallq magic\n"@
    } else {
        "\tmovb "@ + c.loc + ",\t%al\n"@
    }) + "\tcmpb $0,\t%al\n\tje\t\t"@ + label_text(target) + "\n"@
}

/// The prologue of a function with `slots` locals and temporaries: it
/// sets up the frame and takes eight bytes for each slot from the stack.
/// The text has no line feed after its last line.
pub open spec fn prologue(slots: nat) -> Seq<char> {
    "\tpushq %rbp\n\tmovq %rsp,\t%rbp\n\taddq $16,\t%rbp\n\tsubq $"@ + decimal(8 * slots)
        + ",\t%rsp"@
}

/// The epilogue of a function with `slots` locals and temporaries: it
/// gives back the bytes that the prologue took and returns. The text has
/// no line feed after its last line.
pub open spec fn epilogue(slots: nat) -> Seq<char> {
    "\taddq $"@ + decimal(8 * slots) + ",\t%rsp\n\tpopq %rbp\n\tretq"@
}

/// The lines that end the process.
pub open spec fn exit_lines() -> Seq<char> {
    "\tmovq $60,\t%rax\n\tmovq $1,\t%rdi\n\t\n\tsyscall\n"@
}

/// The assembly of an instruction that moves or computes a value.
pub open spec fn value_asm(q: Instr, tab: Seq<SymbolView>) -> Result<Seq<char>, X86ErrorKind> {
    match q {
        Quad::Assign { dest, src } => match (resolve_place(tab, dest), resolve(tab, src)) {
            (Some(d), Some(s)) => Ok(move_lines(src is Lit, s, d.loc)),
            _ => Err(X86ErrorKind::UnknownSymbol),
        },
        Quad::Unary { dest, op, src } => match (resolve_place(tab, dest), resolve(tab, src)) {
            (Some(d), Some(s)) => Ok(load_line(s, "%rax"@) + unary_line(op) + store_line(d.loc)),
            _ => Err(X86ErrorKind::UnknownSymbol),
        },
        Quad::Binary { dest, lhs, op, rhs } => match (
            resolve_place(tab, dest),
            resolve(tab, lhs),
            resolve(tab, rhs),
        ) {
            (Some(d), Some(l), Some(r)) => Ok(load_both(l, r) + apply_binary(op, d.loc)),
            _ => Err(X86ErrorKind::UnknownSymbol),
        },
        Quad::GetRet { dest } => match resolve_place(tab, dest) {
            Some(d) => Ok(store_line(d.loc)),
            None => Err(X86ErrorKind::UnknownSymbol),
        },
        Quad::SetRet { src } => match resolve(tab, src) {
            Some(s) => Ok(load_line(s, "%rax"@)),
            None => Err(X86ErrorKind::UnknownSymbol),
        },
        _ => Err(X86ErrorKind::Malformed),
    }
}

/// The assembly of an instruction that talks to the runtime or passes
/// arguments.
pub open spec fn runtime_asm(q: Instr, tab: Seq<SymbolView>) -> Result<Seq<char>, X86ErrorKind> {
    match q {
        Quad::Write { src } => match resolve(tab, src) {
            Some(s) => Ok(load_line(s, "%rdi"@) + "\tcallq "@ + print_routine(s.ty) + "\n"@),
            None => Err(X86ErrorKind::UnknownSymbol),
        },
        Quad::Read { dest } => match resolve_place(tab, dest) {
            Some(d) => Ok("\tcallq "@ + read_routine(d.ty) + "\n"@ + store_line(d.loc)),
            None => Err(X86ErrorKind::UnknownSymbol),
        },
        Quad::SetArg { index, src } => match arg_register(index) {
            Some(reg) => match resolve(tab, src) {
                Some(s) => Ok(load_line(s, reg)),
                None => Err(X86ErrorKind::UnknownSymbol),
            },
            None => Err(X86ErrorKind::TooManyArguments),
        },
        Quad::GetArg { index, dest } => match arg_register(index) {
            Some(reg) => match resolve_place(tab, dest) {
                Some(d) => Ok("\tmovq "@ + reg + ",\t"@ + d.loc + "\n"@),
                None => Err(X86ErrorKind::UnknownSymbol),
            },
            None => Err(X86ErrorKind::TooManyArguments),
        },
        Quad::Call { name } => Ok("\tcallq "@ + name + "\n"@),
        Quad::Exit => Ok(exit_lines()),
        _ => Err(X86ErrorKind::Malformed),
    }
}

/// The assembly of an instruction of control flow, in a function with
/// `slots` locals and temporaries.
pub open spec fn flow_asm(q: Instr, tab: Seq<SymbolView>, slots: nat) -> Result<
    Seq<char>,
    X86ErrorKind,
> {
    match q {
        Quad::Ifz { cond, target } => match resolve(tab, cond) {
            Some(c) => Ok(ifz_lines(c, target)),
            None => Err(X86ErrorKind::UnknownSymbol),
        },
        Quad::Goto { target } => Ok("\tjmp\t\t"@ + label_text(target) + "\n"@),
        Quad::Label { label } => Ok(label_text(label) + ":\tnop\n"@),
        Quad::Enter { name } => Ok(name + ":"@ + prologue(slots) + "\n"@),
        Quad::Leave { label, name } => Ok(label_text(label) + ":"@ + epilogue(slots) + "\n"@),
        _ => Err(X86ErrorKind::Malformed),
    }
}

/// The assembly of an instruction, in a function with `slots` locals and
/// temporaries and with the symbols `tab`; or the error, when the
/// instruction names an unknown symbol or a seventh argument.
pub open spec fn quad_asm(q: Instr, tab: Seq<SymbolView>, slots: nat) -> Result<
    Seq<char>,
    X86ErrorKind,
> {
    match q {
        Quad::Assign { .. } | Quad::Unary { .. } | Quad::Binary { .. } | Quad::GetRet { .. } | Quad::SetRet { .. } => value_asm(
            q,
            tab,
        ),
        Quad::Write { .. } | Quad::Read { .. } | Quad::SetArg { .. } | Quad::GetArg { .. } | Quad::Call { .. } | Quad::Exit => runtime_asm(
            q,
            tab,
        ),
        _ => flow_asm(q, tab, slots),
    }
}

} // verus!
