//! Reading the text of three-address code back into instructions.

use vstd::prelude::*;
use vstd::string::*;
use crate::assembly::ir::{Operand, Place, Quad};
use crate::scan::{
    after,
    rest,
    string_of,
    chars_view,
    find_first,
    first_index,
    has_prefix,
    i32_of,
    is_text,
    read_i32,
    read_usize,
    same_text,
    split,
    split_spec,
    starts_with,
    piece,
    usize_of,
};
use crate::assembly::three_ac::{Instr, Value};
use crate::parser::ast::{BinaryExpKind, UnaryExpKind};
use crate::text::slice_to_string;

verus! {

/// The place that `[name]` names.
pub open spec fn place_of_text(w: Seq<char>) -> Option<Place<Seq<char>>> {
    if w.len() >= 2 && w[0] == '[' && w.last() == ']' {
        Some(Place::Var(w.subrange(1, w.len() - 1)))
    } else {
        None
    }
}

/// The operand that a word spells: `true`, `false`, `24Kmagic`, `strN`,
/// `[name]`, or a number.
pub open spec fn operand_of_text(w: Seq<char>) -> Option<Value> {
    if w == "true"@ {
        Some(Operand::True)
    } else if w == "false"@ {
        Some(Operand::False)
    } else if w == "24Kmagic"@ {
        Some(Operand::Magic)
    } else if starts_with(w, "str"@) {
        match usize_of(after(w, "str"@.len())) {
            Some(n) => Some(Operand::Str(n)),
            None => None,
        }
    } else if w.len() > 0 && w[0] == '[' {
        match place_of_text(w) {
            Some(p) => Some(Operand::Sym(p)),
            None => None,
        }
    } else {
        match i32_of(w) {
            Some(n) => Some(Operand::Lit(n)),
            None => None,
        }
    }
}

/// The label that `lbl_N` names.
pub open spec fn label_of_text(w: Seq<char>) -> Option<usize> {
    if starts_with(w, "lbl_"@) {
        usize_of(after(w, "lbl_"@.len()))
    } else {
        None
    }
}

/// The unary operator that a word names.
pub open spec fn unary_of_text(w: Seq<char>) -> Option<UnaryExpKind> {
    if w == "NEG64"@ {
        Some(UnaryExpKind::Neg)
    } else if w == "NOT64"@ {
        Some(UnaryExpKind::Not)
    } else {
        None
    }
}

/// The binary operator that a word names.
pub open spec fn binary_of_text(w: Seq<char>) -> Option<BinaryExpKind> {
    if w == "ADD64"@ {
        Some(BinaryExpKind::Plus)
    } else if w == "SUB64"@ {
        Some(BinaryExpKind::Minus)
    } else if w == "MULT64"@ {
        Some(BinaryExpKind::Times)
    } else if w == "DIV64"@ {
        Some(BinaryExpKind::Divide)
    } else if w == "AND64"@ {
        Some(BinaryExpKind::And)
    } else if w == "OR64"@ {
        Some(BinaryExpKind::Or)
    } else if w == "EQ64"@ {
        Some(BinaryExpKind::Equals)
    } else if w == "NEQ64"@ {
        Some(BinaryExpKind::NotEquals)
    } else if w == "GT64"@ {
        Some(BinaryExpKind::Greater)
    } else if w == "LT64"@ {
        Some(BinaryExpKind::Less)
    } else if w == "GTE64"@ {
        Some(BinaryExpKind::GreaterEq)
    } else if w == "LTE64"@ {
        Some(BinaryExpKind::LessEq)
    } else {
        None
    }
}

/// The instruction that the words of a line that starts with a tab spell.
pub open spec fn quad_of_words(ws: Seq<Seq<char>>) -> Option<Instr> {
    if ws.len() == 1 {
        if ws[0] == "exit"@ {
            Some(Quad::Exit)
        } else {
            None
        }
    } else if ws.len() == 2 {
        if ws[0] == "WRITE"@ {
            match operand_of_text(ws[1]) {
                Some(src) => Some(Quad::Write { src }),
                None => None,
            }
        } else if ws[0] == "READ"@ {
            match place_of_text(ws[1]) {
                Some(dest) => Some(Quad::Read { dest }),
                None => None,
            }
        } else if ws[0] == "goto"@ {
            match label_of_text(ws[1]) {
                Some(target) => Some(Quad::Goto { target }),
                None => None,
            }
        } else if ws[0] == "call"@ {
            Some(Quad::Call { name: ws[1] })
        } else if ws[0] == "getret"@ {
            match place_of_text(ws[1]) {
                Some(dest) => Some(Quad::GetRet { dest }),
                None => None,
            }
        } else if ws[0] == "setret"@ {
            match operand_of_text(ws[1]) {
                Some(src) => Some(Quad::SetRet { src }),
                None => None,
            }
        } else {
            None
        }
    } else if ws.len() == 3 {
        if ws[0] == "setarg"@ {
            match (usize_of(ws[1]), operand_of_text(ws[2])) {
                (Some(index), Some(src)) => Some(Quad::SetArg { index, src }),
                _ => None,
            }
        } else if ws[0] == "getarg"@ {
            match (usize_of(ws[1]), place_of_text(ws[2])) {
                (Some(index), Some(dest)) => Some(Quad::GetArg { index, dest }),
                _ => None,
            }
        } else if ws[1] == ":="@ {
            match (place_of_text(ws[0]), operand_of_text(ws[2])) {
                (Some(dest), Some(src)) => Some(Quad::Assign { dest, src }),
                _ => None,
            }
        } else {
            None
        }
    } else if ws.len() == 4 {
        if ws[0] == "IFZ"@ && ws[2] == "goto"@ {
            match (operand_of_text(ws[1]), label_of_text(ws[3])) {
                (Some(cond), Some(target)) => Some(Quad::Ifz { cond, target }),
                _ => None,
            }
        } else if ws[1] == ":="@ {
            match (place_of_text(ws[0]), unary_of_text(ws[2]), operand_of_text(ws[3])) {
                (Some(dest), Some(op), Some(src)) => Some(Quad::Unary { dest, op, src }),
                _ => None,
            }
        } else {
            None
        }
    } else if ws.len() == 5 {
        if ws[1] == ":="@ {
            match (
                place_of_text(ws[0]),
                operand_of_text(ws[2]),
                binary_of_text(ws[3]),
                operand_of_text(ws[4]),
            ) {
                (Some(dest), Some(lhs), Some(op), Some(rhs)) => Some(
                    Quad::Binary { dest, lhs, op, rhs },
                ),
                _ => None,
            }
        } else {
            None
        }
    } else {
        None
    }
}

/// The instruction that a line that starts with `head:` and a tab spells,
/// given the words after the tab.
pub open spec fn quad_of_marked(head: Seq<char>, ws: Seq<Seq<char>>) -> Option<Instr> {
    if ws.len() == 1 && ws[0] == "nop"@ {
        match label_of_text(head) {
            Some(label) => Some(Quad::Label { label }),
            None => None,
        }
    } else if ws.len() == 2 && ws[0] == "enter"@ {
        if ws[1] == head {
            Some(Quad::Enter { name: head })
        } else {
            None
        }
    } else if ws.len() == 2 && ws[0] == "leave"@ {
        match label_of_text(head) {
            Some(label) => Some(Quad::Leave { label, name: ws[1] }),
            None => None,
        }
    } else {
        None
    }
}

/// The instruction that a line spells, if it spells one.
pub open spec fn quad_of_line(line: Seq<char>) -> Option<Instr> {
    if line.len() > 0 && line[0] == '\t' {
        quad_of_words(split_spec(after(line, 1), ' '))
    } else {
        let i = first_index(line, ':', 0);
        if 0 <= i && i + 1 < line.len() && line[i + 1] == '\t' {
            quad_of_marked(line.subrange(0, i), split_spec(after(line, (i + 2) as nat), ' '))
        } else {
            None
        }
    }
}

/// The view of an instruction that may not be there.
pub open spec fn opt_quad_view(q: Option<Quad<String>>) -> Option<Instr> {
    match q {
        Some(x) => Some(x@),
        None => None,
    }
}

/// The view of an operand that may not be there.
pub open spec fn opt_operand_view(o: Option<Operand<String>>) -> Option<Value> {
    match o {
        Some(x) => Some(x@),
        None => None,
    }
}

/// The view of a place that may not be there.
pub open spec fn opt_place_view(p: Option<Place<String>>) -> Option<Place<Seq<char>>> {
    match p {
        Some(x) => Some(x@),
        None => None,
    }
}

/// The place that `[name]` names.
pub fn read_place(w: &Vec<char>) -> (r: Option<Place<String>>)
    ensures
        opt_place_view(r) == place_of_text(w@),
{
    let n = w.len();
    if n >= 2 && w[0] == '[' && w[n - 1] == ']' {
        Some(Place::Var(slice_to_string(w, 1, n - 1)))
    } else {
        None
    }
}

/// The operand that a word spells.
pub fn read_operand(w: &Vec<char>) -> (r: Option<Operand<String>>)
    ensures
        opt_operand_view(r) == operand_of_text(w@),
{
    if is_text(w, "true") {
        Some(Operand::True)
    } else if is_text(w, "false") {
        Some(Operand::False)
    } else if is_text(w, "24Kmagic") {
        Some(Operand::Magic)
    } else {
        let (is_str, n) = has_prefix(w, "str");
        if is_str {
            match read_usize(&rest(w, n)) {
                Some(i) => Some(Operand::Str(i)),
                None => None,
            }
        } else if w.len() > 0 && w[0] == '[' {
            match read_place(w) {
                Some(p) => Some(Operand::Sym(p)),
                None => None,
            }
        } else {
            match read_i32(w) {
                Some(i) => Some(Operand::Lit(i)),
                None => None,
            }
        }
    }
}

/// The label that `lbl_N` names.
pub fn read_label(w: &Vec<char>) -> (r: Option<usize>)
    ensures
        r == label_of_text(w@),
{
    let (is_label, n) = has_prefix(w, "lbl_");
    if is_label {
        read_usize(&rest(w, n))
    } else {
        None
    }
}

/// The unary operator that a word names.
pub fn read_unary(w: &Vec<char>) -> (r: Option<UnaryExpKind>)
    ensures
        r == unary_of_text(w@),
{
    if is_text(w, "NEG64") {
        Some(UnaryExpKind::Neg)
    } else if is_text(w, "NOT64") {
        Some(UnaryExpKind::Not)
    } else {
        None
    }
}

/// The binary operator that a word names.
pub fn read_binary(w: &Vec<char>) -> (r: Option<BinaryExpKind>)
    ensures
        r == binary_of_text(w@),
{
    if is_text(w, "ADD64") {
        Some(BinaryExpKind::Plus)
    } else if is_text(w, "SUB64") {
        Some(BinaryExpKind::Minus)
    } else if is_text(w, "MULT64") {
        Some(BinaryExpKind::Times)
    } else if is_text(w, "DIV64") {
        Some(BinaryExpKind::Divide)
    } else if is_text(w, "AND64") {
        Some(BinaryExpKind::And)
    } else if is_text(w, "OR64") {
        Some(BinaryExpKind::Or)
    } else if is_text(w, "EQ64") {
        Some(BinaryExpKind::Equals)
    } else if is_text(w, "NEQ64") {
        Some(BinaryExpKind::NotEquals)
    } else if is_text(w, "GT64") {
        Some(BinaryExpKind::Greater)
    } else if is_text(w, "LT64") {
        Some(BinaryExpKind::Less)
    } else if is_text(w, "GTE64") {
        Some(BinaryExpKind::GreaterEq)
    } else if is_text(w, "LTE64") {
        Some(BinaryExpKind::LessEq)
    } else {
        None
    }
}

/// The instruction that one or two words spell.
pub fn read_short(ws: &Vec<Vec<char>>) -> (r: Option<Quad<String>>)
    requires
        1 <= ws@.len() <= 2,
    ensures
        opt_quad_view(r) == quad_of_words(chars_view(ws@)),
{
    if ws.len() == 1 {
        if is_text(&ws[0], "exit") {
            Some(Quad::Exit)
        } else {
            None
        }
    } else if is_text(&ws[0], "WRITE") {
        match read_operand(&ws[1]) {
            Some(src) => Some(Quad::Write { src }),
            None => None,
        }
    } else if is_text(&ws[0], "READ") {
        match read_place(&ws[1]) {
            Some(dest) => Some(Quad::Read { dest }),
            None => None,
        }
    } else if is_text(&ws[0], "goto") {
        match read_label(&ws[1]) {
            Some(target) => Some(Quad::Goto { target }),
            None => None,
        }
    } else if is_text(&ws[0], "call") {
        Some(Quad::Call { name: string_of(&ws[1]) })
    } else if is_text(&ws[0], "getret") {
        match read_place(&ws[1]) {
            Some(dest) => Some(Quad::GetRet { dest }),
            None => None,
        }
    } else if is_text(&ws[0], "setret") {
        match read_operand(&ws[1]) {
            Some(src) => Some(Quad::SetRet { src }),
            None => None,
        }
    } else {
        None
    }
}

/// The instruction that three words spell.
pub fn read_three(ws: &Vec<Vec<char>>) -> (r: Option<Quad<String>>)
    requires
        ws@.len() == 3,
    ensures
        opt_quad_view(r) == quad_of_words(chars_view(ws@)),
{
    if is_text(&ws[0], "setarg") {
        match read_usize(&ws[1]) {
            Some(index) => match read_operand(&ws[2]) {
                Some(src) => Some(Quad::SetArg { index, src }),
                None => None,
            },
            None => None,
        }
    } else if is_text(&ws[0], "getarg") {
        match read_usize(&ws[1]) {
            Some(index) => match read_place(&ws[2]) {
                Some(dest) => Some(Quad::GetArg { index, dest }),
                None => None,
            },
            None => None,
        }
    } else if is_text(&ws[1], ":=") {
        match read_place(&ws[0]) {
            Some(dest) => match read_operand(&ws[2]) {
                Some(src) => Some(Quad::Assign { dest, src }),
                None => None,
            },
            None => None,
        }
    } else {
        None
    }
}

/// The instruction that four or five words spell.
pub fn read_long(ws: &Vec<Vec<char>>) -> (r: Option<Quad<String>>)
    requires
        4 <= ws@.len() <= 5,
    ensures
        opt_quad_view(r) == quad_of_words(chars_view(ws@)),
{
    if ws.len() == 4 {
        if is_text(&ws[0], "IFZ") && is_text(&ws[2], "goto") {
            match read_operand(&ws[1]) {
                Some(cond) => match read_label(&ws[3]) {
                    Some(target) => Some(Quad::Ifz { cond, target }),
                    None => None,
                },
                None => None,
            }
        } else if is_text(&ws[1], ":=") {
            match read_place(&ws[0]) {
                Some(dest) => match read_unary(&ws[2]) {
                    Some(op) => match read_operand(&ws[3]) {
                        Some(src) => Some(Quad::Unary { dest, op, src }),
                        None => None,
                    },
                    None => None,
                },
                None => None,
            }
        } else {
            None
        }
    } else if is_text(&ws[1], ":=") {
        match read_place(&ws[0]) {
            Some(dest) => match read_operand(&ws[2]) {
                Some(lhs) => match read_binary(&ws[3]) {
                    Some(op) => match read_operand(&ws[4]) {
                        Some(rhs) => Some(Quad::Binary { dest, lhs, op, rhs }),
                        None => None,
                    },
                    None => None,
                },
                None => None,
            },
            None => None,
        }
    } else {
        None
    }
}

/// The instruction that the words of a line that starts with a tab spell.
pub fn read_words(ws: &Vec<Vec<char>>) -> (r: Option<Quad<String>>)
    ensures
        opt_quad_view(r) == quad_of_words(chars_view(ws@)),
{
    let n = ws.len();
    if n == 1 || n == 2 {
        read_short(ws)
    } else if n == 3 {
        read_three(ws)
    } else if n == 4 || n == 5 {
        read_long(ws)
    } else {
        None
    }
}

/// The instruction that a line that starts with `head:` and a tab spells.
pub fn read_marked(head: &Vec<char>, ws: &Vec<Vec<char>>) -> (r: Option<Quad<String>>)
    ensures
        opt_quad_view(r) == quad_of_marked(head@, chars_view(ws@)),
{
    if ws.len() == 1 && is_text(&ws[0], "nop") {
        match read_label(head) {
            Some(label) => Some(Quad::Label { label }),
            None => None,
        }
    } else if ws.len() == 2 && is_text(&ws[0], "enter") {
        if same_text(&ws[1], head) {
            Some(Quad::Enter { name: string_of(head) })
        } else {
            None
        }
    } else if ws.len() == 2 && is_text(&ws[0], "leave") {
        match read_label(head) {
            Some(label) => Some(Quad::Leave { label, name: string_of(&ws[1]) }),
            None => None,
        }
    } else {
        None
    }
}

/// The instruction that a line spells, if it spells one.
pub fn read_quad(line: &Vec<char>) -> (r: Option<Quad<String>>)
    ensures
        opt_quad_view(r) == quad_of_line(line@),
{
    if line.len() > 0 && line[0] == '\t' {
        let ws = split(&rest(line, 1), ' ');
        read_words(&ws)
    } else {
        let i = find_first(line, ':');
        if i < line.len() && i + 1 < line.len() && line[i + 1] == '\t' {
            let head = piece(line, 0, i);
            let ws = split(&rest(line, i + 2), ' ');
            read_marked(&head, &ws)
        } else {
            None
        }
    }
}

} // verus!
