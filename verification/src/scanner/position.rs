//! The place of a token in the source text: the row and column at which it
//! starts and those at which it ends.

use vstd::prelude::*;
use vstd::string::*;
use crate::text::{append_i32, signed_decimal};

verus! {

/// The rows and columns between which a token stands.
pub struct Position {
    pub row_start: i32,
    pub col_start: i32,
    pub row_end: i32,
    pub col_end: i32,
}

/// The text `[row, col]`.
pub open spec fn point_text(row: i32, col: i32) -> Seq<char> {
    "["@ + signed_decimal(row as int) + ", "@ + signed_decimal(col as int) + "]"@
}

/// Appends `[row, col]` to `out`.
pub fn append_point(out: &mut String, row: i32, col: i32)
    ensures
        final(out)@ == old(out)@ + point_text(row, col),
{
    out.append("[");
    append_i32(out, row);
    out.append(", ");
    append_i32(out, col);
    out.append("]");
    proof {
        assert(final(out)@ =~= old(out)@ + point_text(row, col));
    }
}

impl Position {
    /// The position from the given start to the given end.
    pub fn new(row_start: i32, col_start: i32, row_end: i32, col_end: i32) -> (p: Position)
        ensures
            p == (Position { row_start, col_start, row_end, col_end }),
    {
        Position { row_start, col_start, row_end, col_end }
    }

    /// The text of the start: `[row, col]`.
    pub open spec fn start_text(self) -> Seq<char> {
        point_text(self.row_start, self.col_start)
    }

    /// The text of the whole position: the start, ` - `, and the end.
    pub open spec fn span_text(self) -> Seq<char> {
        self.start_text() + " - "@ + point_text(self.row_end, self.col_end)
    }

    /// The start as text.
    pub fn start_to_string(&self) -> (s: String)
        ensures
            s@ == self.start_text(),
    {
        let mut s = String::new();
        append_point(&mut s, self.row_start, self.col_start);
        proof {
            assert(s@ =~= self.start_text());
        }
        s
    }

    /// The start and the end as text.
    pub fn span_to_string(&self) -> (s: String)
        ensures
            s@ == self.span_text(),
    {
        let mut s = self.start_to_string();
        s.append(" - ");
        append_point(&mut s, self.row_end, self.col_end);
        s
    }
}

} // verus!
