//! Source positions and spans, and their conversion from byte offsets into
//! (row, column) pairs.

use vstd::prelude::*;
use vstd::string::*;
use crate::text::{append_usize, decimal, to_chars};

verus! {

/// A (row, column) pair.
#[derive(Debug, Clone, Copy, PartialEq, Eq, PartialOrd, Ord, Structural)]
pub struct Position {
    pub row: usize,
    pub col: usize,
}

/// The stretch of source text between two positions.
#[derive(Debug, Clone, Copy, PartialEq, Eq, Structural)]
pub struct Span {
    pub start: Position,
    pub end: Position,
}

/// `a + b`, stopping at the largest `usize`.
pub open spec fn sat_add(a: usize, b: usize) -> usize {
    if a + b <= usize::MAX {
        (a + b) as usize
    } else {
        usize::MAX
    }
}

/// `a + b`, stopping at the largest `usize`.
pub fn saturating_sum(a: usize, b: usize) -> (r: usize)
    ensures
        r == sat_add(a, b),
{
    if a <= usize::MAX - b {
        a + b
    } else {
        usize::MAX
    }
}

impl Position {
    /// A position at the given row and column.
    pub fn test_new(row: usize, col: usize) -> (p: Position)
        ensures
            p.row == row,
            p.col == col,
    {
        Position { row, col }
    }

    /// Whether `self` comes strictly before `other`: an earlier row, or the
    /// same row and an earlier column.
    pub open spec fn spec_precedes(self, other: Position) -> bool {
        self.row < other.row || (self.row == other.row && self.col < other.col)
    }

    /// Whether `self` comes strictly before `other`.
    pub fn precedes(&self, other: &Position) -> (b: bool)
        ensures
            b == self.spec_precedes(*other),
    {
        self.row < other.row || (self.row == other.row && self.col < other.col)
    }

    /// The earlier of two positions.
    pub open spec fn spec_min(self, other: Position) -> Position {
        if other.spec_precedes(self) {
            other
        } else {
            self
        }
    }

    /// The later of two positions.
    pub open spec fn spec_max(self, other: Position) -> Position {
        if self.spec_precedes(other) {
            other
        } else {
            self
        }
    }

    /// The text `[row, col]`.
    pub open spec fn spec_text(self) -> Seq<char> {
        "["@ + decimal(self.row as nat) + ", "@ + decimal(self.col as nat) + "]"@
    }

    /// Appends `[row, col]` to `out`.
    pub fn append_to(&self, out: &mut String)
        ensures
            final(out)@ == old(out)@ + self.spec_text(),
    {
        out.append("[");
        append_usize(out, self.row);
        out.append(", ");
        append_usize(out, self.col);
        out.append("]");
        proof {
            assert(final(out)@ =~= old(out)@ + self.spec_text());
        }
    }
}

/// Where a span stands after the first `i` lines have been accounted for.
pub open spec fn correct_from(sp: Span, lines: Seq<usize>, i: int) -> Span
    decreases lines.len() - i,
{
    if i < 0 || i >= lines.len() {
        sp
    } else {
        let line = sat_add(lines[i], 2);
        let start = if sp.start.col >= line {
            Position { row: sat_add(sp.start.row, 1), col: (sp.start.col - line) as usize }
        } else {
            sp.start
        };
        if sp.end.col >= line {
            let end = Position { row: sat_add(sp.end.row, 1), col: (sp.end.col - line) as usize };
            correct_from(Span { start, end }, lines, i + 1)
        } else {
            Span { start, end: sp.end }
        }
    }
}

impl Span {
    /// A span on row 1 whose columns are the byte offsets `start` and `end`.
    pub open spec fn spec_new(start: usize, end: usize) -> Span {
        Span { start: Position { row: 1, col: start }, end: Position { row: 1, col: end } }
    }

    /// A span on row 1 whose columns are the byte offsets `start` and `end`.
    #[verifier::when_used_as_spec(spec_new)]
    pub fn new(start: usize, end: usize) -> (s: Span)
        ensures
            s == Span::spec_new(start, end),
    {
        Span { start: Position { row: 1, col: start }, end: Position { row: 1, col: end } }
    }

    /// The corrected span: both columns move one to the right, and then each
    /// line whose length plus two fits under a column is taken off that
    /// column and counted as a row, for as long as the end keeps moving.
    pub open spec fn spec_correct(self, lines: Seq<usize>) -> Span {
        correct_from(
            Span {
                start: Position { row: self.start.row, col: sat_add(self.start.col, 1) },
                end: Position { row: self.end.row, col: sat_add(self.end.col, 1) },
            },
            lines,
            0,
        )
    }

    /// Turns byte offsets into rows and columns, given the byte length of
    /// each line of the source text.
    pub fn correct(&mut self, line_bytes: &Vec<usize>)
        ensures
            *final(self) == old(self).spec_correct(line_bytes@),
    {
        self.start.col = saturating_sum(self.start.col, 1);
        self.end.col = saturating_sum(self.end.col, 1);
        let mut i: usize = 0;
        while i < line_bytes.len()
            invariant
                i <= line_bytes@.len(),
                correct_from(*self, line_bytes@, i as int) == old(self).spec_correct(line_bytes@),
            decreases line_bytes@.len() - i,
        {
            let line = saturating_sum(line_bytes[i], 2);
            if self.start.col >= line {
                self.start.col = self.start.col - line;
                self.start.row = saturating_sum(self.start.row, 1);
            }
            if self.end.col >= line {
                self.end.col = self.end.col - line;
                self.end.row = saturating_sum(self.end.row, 1);
            } else {
                return ;
            }
            i += 1;
        }
    }

    /// The smallest span that covers both `self` and `other`.
    pub open spec fn spec_cover(self, other: Span) -> Span {
        Span { start: self.start.spec_min(other.start), end: self.end.spec_max(other.end) }
    }

    /// The smallest span that covers both `self` and `other`.
    pub fn cover(&self, other: &Span) -> (s: Span)
        ensures
            s == self.spec_cover(*other),
    {
        let start = if other.start.precedes(&self.start) {
            other.start
        } else {
            self.start
        };
        let end = if self.end.precedes(&other.end) {
            other.end
        } else {
            self.end
        };
        Span { start, end }
    }

    /// The text `[row, col]-[row, col]`.
    pub open spec fn spec_text(self) -> Seq<char> {
        self.start.spec_text() + "-"@ + self.end.spec_text()
    }

    /// Appends `[row, col]-[row, col]` to `out`.
    pub fn append_to(&self, out: &mut String)
        ensures
            final(out)@ == old(out)@ + self.spec_text(),
    {
        self.start.append_to(out);
        out.append("-");
        self.end.append_to(out);
        proof {
            assert(final(out)@ =~= old(out)@ + self.spec_text());
        }
    }
}

/// The number of bytes that the UTF-8 encoding of `c` takes.
pub open spec fn utf8_len(c: char) -> nat {
    if (c as u32) < 0x80 {
        1
    } else if (c as u32) < 0x800 {
        2
    } else if (c as u32) < 0x10000 {
        3
    } else {
        4
    }
}

/// The number of bytes that the UTF-8 encoding of `s` takes.
pub open spec fn byte_len(s: Seq<char>) -> nat
    decreases s.len(),
{
    if s.len() == 0 {
        0
    } else {
        byte_len(s.drop_last()) + utf8_len(s.last())
    }
}

/// A byte count as a `usize`, stopping at the largest one.
pub open spec fn clip(n: nat) -> usize {
    if n <= usize::MAX {
        n as usize
    } else {
        usize::MAX
    }
}

/// The number of bytes that the UTF-8 encoding of `c` takes.
pub fn char_bytes(c: char) -> (n: usize)
    ensures
        n == utf8_len(c),
{
    let u = c as u32;
    if u < 0x80 {
        1
    } else if u < 0x800 {
        2
    } else if u < 0x10000 {
        3
    } else {
        4
    }
}

/// The index just past the line that starts at `from`: that of its line
/// feed, or the end of the text.
pub open spec fn line_end(s: Seq<char>, from: int) -> int
    decreases s.len() - from,
{
    if from < 0 || from >= s.len() {
        s.len() as int
    } else if s[from] == '\n' {
        from
    } else {
        line_end(s, from + 1)
    }
}

/// The byte length of each line of `s` from index `from` on. A line ends at
/// a line feed, and a carriage return just before that line feed is not
/// counted; a last line without a line feed counts too.
pub open spec fn line_lengths(s: Seq<char>, from: int) -> Seq<usize>
    decreases s.len() - from,
{
    if from < 0 || from >= s.len() {
        Seq::empty()
    } else {
        let e = line_end(s, from);
        if e < from || e > s.len() {
            Seq::empty()
        } else {
            let stop = if e < s.len() && e > from && s[e - 1] == '\r' {
                e - 1
            } else {
                e
            };
            let first = seq![clip(byte_len(s.subrange(from, stop)))];
            if e < s.len() {
                first + line_lengths(s, e + 1)
            } else {
                first
            }
        }
    }
}

proof fn lemma_line_end_bounds(s: Seq<char>, from: int)
    requires
        0 <= from <= s.len(),
    ensures
        from <= line_end(s, from) <= s.len(),
        line_end(s, from) < s.len() ==> s[line_end(s, from)] == '\n',
        forall|k: int| from <= k < line_end(s, from) ==> s[k] != '\n',
    decreases s.len() - from,
{
    if from < s.len() && s[from] != '\n' {
        lemma_line_end_bounds(s, from + 1);
    }
}

proof fn lemma_line_end_step(s: Seq<char>, from: int, k: int)
    requires
        0 <= from <= k <= s.len(),
        forall|j: int| from <= j < k ==> s[j] != '\n',
    ensures
        line_end(s, from) == line_end(s, k),
    decreases k - from,
{
    if from < k {
        lemma_line_end_step(s, from + 1, k);
    }
}

/// The byte length of each line of `input`.
pub fn line_bytes(input: String) -> (v: Vec<usize>)
    ensures
        v@ == line_lengths(input@, 0),
{
    let chars = to_chars(input.as_str());
    let n = chars.len();
    let mut v: Vec<usize> = Vec::new();
    let mut start: usize = 0;
    while start < n
        invariant
            start <= n + 1,
            n == chars@.len(),
            chars@ == input@,
            v@ + line_lengths(chars@, start as int) == line_lengths(chars@, 0),
        decreases n + 1 - start,
    {
        // find the end of the line, counting its bytes on the way
        let mut k: usize = start;
        let mut bytes: usize = 0;
        let mut last: usize = 0;
        while k < n && chars[k] != '\n'
            invariant
                start <= k <= n,
                n == chars@.len(),
                forall|j: int| start <= j < k ==> chars@[j] != '\n',
                bytes == clip(byte_len(chars@.subrange(start as int, k as int))),
                k > start ==> last == clip(byte_len(chars@.subrange(start as int, k - 1))),
            decreases n - k,
        {
            proof {
                assert(chars@.subrange(start as int, k + 1).drop_last() =~= chars@.subrange(
                    start as int,
                    k as int,
                ));
            }
            last = bytes;
            bytes = saturating_sum(bytes, char_bytes(chars[k]));
            k += 1;
        }
        proof {
            lemma_line_end_step(chars@, start as int, k as int);
            lemma_line_end_bounds(chars@, k as int);
            assert(line_end(chars@, start as int) == k);
        }
        let len = if k < n && k > start && chars[k - 1] == '\r' {
            last
        } else {
            bytes
        };
        proof {
            if k < n {
                assert(v@.push(len) + line_lengths(chars@, k + 1) =~= v@ + (seq![len]
                    + line_lengths(chars@, k + 1)));
            } else {
                assert(v@.push(len) + line_lengths(chars@, n as int) =~= v@ + seq![len]);
            }
        }
        v.push(len);
        if k < n {
            start = k + 1;
        } else {
            start = n;
        }
    }
    proof {
        assert(v@ + Seq::<usize>::empty() =~= v@);
    }
    v
}

} // verus!
