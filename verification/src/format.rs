//! Indenting written-out programs by their braces.

use vstd::prelude::*;
use vstd::string::*;
use crate::scan::{chars_view, piece, split, split_spec, string_of};
use crate::parser::ast::Program;
use crate::parser::display::program_text;
use crate::scanner::lexer::{is_space, space};
use crate::text::to_chars;

verus! {

/// The index of the first character of `s[i..]` that is not white space,
/// or the length of `s`.
pub open spec fn lead(s: Seq<char>, i: int) -> int
    decreases s.len() - i,
{
    if i < 0 || i >= s.len() {
        s.len() as int
    } else if !is_space(s[i]) {
        i
    } else {
        lead(s, i + 1)
    }
}

/// The index after the last character of `s[..n]` that is not white
/// space, or 0.
pub open spec fn tail(s: Seq<char>, n: int) -> int
    decreases n,
{
    if n <= 0 || n > s.len() {
        0
    } else if !is_space(s[n - 1]) {
        n
    } else {
        tail(s, n - 1)
    }
}

/// `s` without the white space at its two ends.
pub open spec fn trimmed(s: Seq<char>) -> Seq<char> {
    let a = lead(s, 0);
    let b = tail(s, s.len() as int);
    if 0 <= a < b <= s.len() {
        s.subrange(a, b)
    } else {
        Seq::empty()
    }
}

/// `p` without a carriage return at its end.
pub open spec fn strip_cr(p: Seq<char>) -> Seq<char> {
    if p.len() > 0 && p.last() == '\r' {
        p.drop_last()
    } else {
        p
    }
}

/// How many lines a text has whose pieces between line feeds are `ps`: a
/// last piece that is empty is no line.
pub open spec fn line_count(ps: Seq<Seq<char>>) -> int {
    if ps.len() > 0 && ps.last().len() == 0 {
        ps.len() - 1
    } else {
        ps.len() as int
    }
}

/// The line of the index `i` of a text whose pieces between line feeds
/// are `ps`: a carriage return before the line feed is not part of it.
pub open spec fn line_at(ps: Seq<Seq<char>>, i: int) -> Seq<char> {
    if i < ps.len() - 1 {
        strip_cr(ps[i])
    } else {
        ps[i]
    }
}

/// `n` times four spaces.
pub open spec fn indent(n: nat) -> Seq<char>
    decreases n,
{
    if n == 0 {
        Seq::empty()
    } else {
        indent((n - 1) as nat) + "    "@
    }
}

/// The depth at which a line is written, given the depth before it: one
/// less when it starts with a closing brace, but not less than 0.
pub open spec fn depth_of(line: Seq<char>, depth: nat) -> nat {
    if line.len() > 0 && line[0] == '}' && depth > 0 {
        (depth - 1) as nat
    } else {
        depth
    }
}

/// The depth after a line written at the depth `depth`: one more when it
/// ends with an opening brace.
pub open spec fn depth_after(line: Seq<char>, depth: nat) -> nat {
    if line.len() > 0 && line.last() == '{' {
        depth + 1
    } else {
        depth
    }
}

/// The first `n` lines, each without the white space at its ends and
/// indented by the braces before it, with line feeds between them; and the
/// depth after them.
pub open spec fn tabbed(ps: Seq<Seq<char>>, n: int) -> (Seq<char>, nat)
    decreases n,
{
    if n <= 0 || n > ps.len() {
        (Seq::empty(), 0)
    } else {
        let before = tabbed(ps, n - 1);
        let line = trimmed(line_at(ps, n - 1));
        let depth = depth_of(line, before.1);
        (
            before.0 + (if n > 1 {
                "\n"@
            } else {
                Seq::empty()
            }) + indent(depth) + line,
            depth_after(line, depth),
        )
    }
}

/// The text with every line indented by four spaces for each brace that
/// is open before it.
pub open spec fn add_tabs_spec(s: Seq<char>) -> Seq<char> {
    let ps = split_spec(s, '\n');
    tabbed(ps, line_count(ps)).0
}

/// The depth never exceeds the number of lines.
pub proof fn lemma_depth_bound(ps: Seq<Seq<char>>, n: int)
    requires
        0 <= n <= ps.len(),
    ensures
        tabbed(ps, n).1 <= n,
    decreases n,
{
    if n > 0 {
        lemma_depth_bound(ps, n - 1);
    }
}

/// The index of the first character of `v` that is not white space, or
/// the length of `v`.
pub fn find_lead(v: &Vec<char>) -> (r: usize)
    ensures
        r == lead(v@, 0),
        r <= v@.len(),
{
    let mut i: usize = 0;
    while i < v.len()
        invariant
            i <= v@.len(),
            lead(v@, 0) == lead(v@, i as int),
        decreases v@.len() - i,
    {
        if !space(v[i]) {
            return i;
        }
        i += 1;
    }
    i
}

/// The index after the last character of `v` that is not white space, or
/// 0.
pub fn find_tail(v: &Vec<char>) -> (r: usize)
    ensures
        r == tail(v@, v@.len() as int),
        r <= v@.len(),
{
    let mut n: usize = v.len();
    while n > 0
        invariant
            n <= v@.len(),
            tail(v@, v@.len() as int) == tail(v@, n as int),
        decreases n,
    {
        if !space(v[n - 1]) {
            return n;
        }
        n -= 1;
    }
    0
}

/// `v` without the white space at its two ends.
pub fn trim(v: &Vec<char>) -> (r: Vec<char>)
    ensures
        r@ == trimmed(v@),
{
    let a = find_lead(v);
    let b = find_tail(v);
    if a < b {
        piece(v, a, b)
    } else {
        Vec::new()
    }
}

/// Appends `n` times four spaces to `out`.
pub fn append_indent(out: &mut String, n: usize)
    ensures
        final(out)@ == old(out)@ + indent(n as nat),
{
    let mut i: usize = 0;
    proof {
        assert(out@ =~= old(out)@ + indent(0));
    }
    while i < n
        invariant
            i <= n,
            out@ == old(out)@ + indent(i as nat),
        decreases n - i,
    {
        out.append("    ");
        proof {
            assert(out@ =~= old(out)@ + indent((i + 1) as nat));
        }
        i += 1;
    }
}

/// Indents a written-out program: every line loses the white space at its
/// ends and gets four spaces for each brace that is open before it; a line
/// that starts with a closing brace closes one first.
pub fn add_tabs(input: String) -> (output: String)
    ensures
        output@ == add_tabs_spec(input@),
{
    let chars = to_chars(input.as_str());
    let pieces = split(&chars, '\n');
    let ghost ps = chars_view(pieces@);
    let total = pieces.len();
    let count = if pieces[total - 1].len() == 0 {
        total - 1
    } else {
        total
    };
    proof {
        assert(ps.last() == pieces@[total - 1]@);
        assert(count == line_count(ps));
    }
    let mut out = String::new();
    let mut depth: usize = 0;
    let mut i: usize = 0;
    while i < count
        invariant
            i <= count <= total,
            total == pieces@.len(),
            ps == chars_view(pieces@),
            out@ == tabbed(ps, i as int).0,
            depth == tabbed(ps, i as int).1,
            depth <= i,
        decreases count - i,
    {
        let ghost before = out@;
        let whole = &pieces[i];
        let n = whole.len();
        let line = if i + 1 < total && n > 0 && whole[n - 1] == '\r' {
            trim(&piece(whole, 0, n - 1))
        } else {
            trim(whole)
        };
        proof {
            assert(ps[i as int] == whole@);
            assert(whole@.subrange(0, n - 1) =~= whole@.drop_last());
            assert(line@ == trimmed(line_at(ps, i as int)));
        }
        if line.len() > 0 && line[0] == '}' && depth > 0 {
            depth -= 1;
        }
        if i > 0 {
            out.append("\n");
        }
        append_indent(&mut out, depth);
        out.append(string_of(&line).as_str());
        proof {
            assert(out@ =~= tabbed(ps, i + 1).0);
        }
        if line.len() > 0 && line[line.len() - 1] == '{' {
            depth += 1;
        }
        i += 1;
    }
    out
}

/// The text of a program, indented by its braces.
pub fn unparse(prog: Box<Program>) -> (s: String)
    ensures
        s@ == add_tabs_spec(program_text(*prog, false)),
{
    add_tabs(prog.to_text())
}

} // verus!
