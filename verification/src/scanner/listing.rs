//! The token listing: one line for each token of a text, and one line for
//! each error.

use vstd::prelude::*;
use vstd::string::*;
use crate::scanner::lexer::{lexemes_of, lexemes_view, scan, LexemeView};
use crate::scanner::tokens::{LexingError, LexingFault, Token, TokenType};
use crate::span::{sat_add, saturating_sum};
use crate::text::{append_decimal, append_usize, decimal};

verus! {

/// Where a scanner is: the row of the line it took in last, and the column
/// after the last lexeme of that line.
#[derive(Debug, Clone, Copy, PartialEq, Eq, Structural)]
pub struct Scanner {
    pub row: u32,
    pub last_col: usize,
}

/// `n` spaces.
pub open spec fn spaces(n: nat) -> Seq<char>
    decreases n,
{
    if n == 0 {
        Seq::empty()
    } else {
        spaces((n - 1) as nat) + " "@
    }
}

/// `s`, followed by as many spaces as it takes to reach the width `width`.
pub open spec fn padded(s: Seq<char>, width: nat) -> Seq<char> {
    if s.len() < width {
        s + spaces((width - s.len()) as nat)
    } else {
        s
    }
}

/// The row after `row`; the largest row is its own successor.
pub open spec fn next_row(row: u32) -> u32 {
    if row < u32::MAX {
        (row + 1) as u32
    } else {
        row
    }
}

/// A row and a column after an opening bracket: `[row,col`.
pub open spec fn place(row: u32, col: usize) -> Seq<char> {
    "["@ + decimal(row as nat) + ","@ + decimal(col as nat)
}

/// The line of the listing for a token that starts at the column `col` of
/// the row `row`: the token in a field of 15 characters, a tab, and
/// `[row,col]`.
pub open spec fn token_line(t: Token, row: u32, col: usize) -> Seq<char> {
    padded(t.spec_text(), 15) + "\t"@ + place(row, col) + "]\n"@
}

/// The line that reports a lexing error between the columns `from` and
/// `to` of the row `row`.
pub open spec fn fault_line(e: LexingFault, row: u32, from: usize, to: usize) -> Seq<char> {
    "FATAL "@ + place(row, from) + "]-"@ + place(row, to) + "]: "@ + e.spec_message() + "\n"@
}

/// The listing of the lexemes `ls[..n]` of a line on the row `row`: the
/// lines of the tokens, and the lines of the errors. Columns are counted
/// from 1.
pub open spec fn listing(ls: Seq<LexemeView>, row: u32, n: int) -> (Seq<char>, Seq<char>)
    decreases n,
{
    if n <= 0 || n > ls.len() {
        (Seq::empty(), Seq::empty())
    } else {
        let before = listing(ls, row, n - 1);
        let l = ls[n - 1];
        match l.token {
            Ok(t) => (before.0 + token_line(t, row, sat_add(l.start, 1)), before.1),
            Err(e) => (
                before.0,
                before.1 + fault_line(e, row, sat_add(l.start, 1), sat_add(l.end, 1)),
            ),
        }
    }
}

/// The column after the last of the lexemes `ls`, or `col` when there is
/// none.
pub open spec fn last_column(ls: Seq<LexemeView>, col: usize) -> usize {
    if ls.len() > 0 {
        sat_add(ls.last().end, 1)
    } else {
        col
    }
}

/// The last line of a token listing: `EOF [row,col]`, at column 1 of the
/// next row when the text ended with an empty line, after the last lexeme
/// otherwise.
pub open spec fn eof_line(sc: Scanner, ended_empty: bool) -> Seq<char> {
    if ended_empty {
        "EOF "@ + "["@ + decimal(sc.row as nat + 1) + ",1]"@
    } else {
        "EOF "@ + place(sc.row, sc.last_col) + "]"@
    }
}

/// Appends `s`, followed by as many spaces as it takes to reach the width
/// `width`, to `out`.
pub fn append_padded(out: &mut String, s: &String, width: usize)
    ensures
        final(out)@ == old(out)@ + padded(s@, width as nat),
{
    out.append(s.as_str());
    let n = s.as_str().unicode_len();
    if n < width {
        let ghost head = out@;
        let mut i: usize = 0;
        proof {
            assert(out@ =~= head + spaces(0));
        }
        while i < width - n
            invariant
                n < width,
                i <= width - n,
                out@ == head + spaces(i as nat),
            decreases width - n - i,
        {
            out.append(" ");
            proof {
                assert(out@ =~= head + spaces((i + 1) as nat));
            }
            i += 1;
        }
        proof {
            assert(out@ =~= old(out)@ + padded(s@, width as nat));
        }
    }
}

/// Appends `[row,col` to `out`.
fn append_place(out: &mut String, row: u32, col: usize)
    ensures
        final(out)@ == old(out)@ + place(row, col),
{
    out.append("[");
    append_decimal(out, row as u64);
    out.append(",");
    append_usize(out, col);
    proof {
        assert(out@ =~= old(out)@ + place(row, col));
    }
}

/// Appends the line of the listing for a token to `out`.
pub fn append_token_line(out: &mut String, t: &TokenType, row: u32, col: usize)
    ensures
        final(out)@ == old(out)@ + token_line(t@, row, col),
{
    append_padded(out, &t.to_text(), 15);
    out.append("\t");
    append_place(out, row, col);
    out.append("]\n");
    proof {
        assert(out@ =~= old(out)@ + token_line(t@, row, col));
    }
}

/// Appends the line that reports a lexing error to `out`.
pub fn append_fault_line(out: &mut String, e: &LexingError, row: u32, from: usize, to: usize)
    ensures
        final(out)@ == old(out)@ + fault_line(e@, row, from, to),
{
    out.append("FATAL ");
    append_place(out, row, from);
    out.append("]-");
    let ghost mid = out@;
    proof {
        assert(mid =~= old(out)@ + ("FATAL "@ + place(row, from) + "]-"@));
    }
    append_place(out, row, to);
    out.append("]: ");
    out.append(e.message().as_str());
    out.append("\n");
    proof {
        assert(out@ =~= mid + (place(row, to) + "]: "@ + e@.spec_message() + "\n"@));
        assert(out@ =~= old(out)@ + fault_line(e@, row, from, to));
    }
}

impl Scanner {
    /// A scanner that has taken in no line yet.
    pub fn new() -> (sc: Scanner)
        ensures
            sc == (Scanner { row: 0, last_col: 0 }),
    {
        Scanner { row: 0, last_col: 0 }
    }

    /// Takes in the next line of a text and gives back the lines of its
    /// tokens and the lines of its errors.
    pub fn tokenize_line(&mut self, stream: &str) -> (r: (String, String))
        ensures
            final(self).row == next_row(old(self).row),
            final(self).last_col == last_column(lexemes_of(stream@), old(self).last_col),
            r.0@ == listing(
                lexemes_of(stream@),
                next_row(old(self).row),
                lexemes_of(stream@).len() as int,
            ).0,
            r.1@ == listing(
                lexemes_of(stream@),
                next_row(old(self).row),
                lexemes_of(stream@).len() as int,
            ).1,
    {
        if self.row < u32::MAX {
            self.row = self.row + 1;
        }
        let row = self.row;
        let items = scan(stream);
        let ghost ls = lexemes_view(items@);
        let mut text = String::new();
        let mut errors = String::new();
        let mut i: usize = 0;
        proof {
            assert(text@ =~= listing(ls, row, 0).0);
            assert(errors@ =~= listing(ls, row, 0).1);
        }
        while i < items.len()
            invariant
                i <= items@.len(),
                ls == lexemes_view(items@),
                row == self.row,
                text@ == listing(ls, row, i as int).0,
                errors@ == listing(ls, row, i as int).1,
                self.last_col == last_column(ls.take(i as int), old(self).last_col),
            decreases items@.len() - i,
        {
            let item = &items[i];
            let from = saturating_sum(item.start, 1);
            let to = saturating_sum(item.end, 1);
            proof {
                assert(ls[i as int] == item@);
                assert(ls.take(i + 1).last() == ls[i as int]);
            }
            match &item.token {
                Ok(t) => {
                    append_token_line(&mut text, t, row, from);
                },
                Err(e) => {
                    append_fault_line(&mut errors, e, row, from, to);
                },
            }
            self.last_col = to;
            i += 1;
        }
        proof {
            assert(ls.take(items@.len() as int) =~= ls);
        }
        (text, errors)
    }

    /// The last line of a token listing.
    pub fn eof_text(&self, ended_empty: bool) -> (s: String)
        ensures
            s@ == eof_line(*self, ended_empty),
    {
        let mut s = String::from_str("EOF ");
        if ended_empty {
            s.append("[");
            append_decimal(&mut s, self.row as u64 + 1);
            s.append(",1]");
        } else {
            append_place(&mut s, self.row, self.last_col);
            s.append("]");
        }
        proof {
            assert(s@ =~= eof_line(*self, ended_empty));
        }
        s
    }
}

} // verus!
