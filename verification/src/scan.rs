//! Reading text: splitting at a character, cutting out pieces, and reading
//! numbers.

use vstd::prelude::*;
use vstd::string::*;
use crate::text::{all_digits, digits_value, is_digit, slice_to_string, to_chars};

verus! {

/// The texts of a list of character buffers.
pub open spec fn chars_view(v: Seq<Vec<char>>) -> Seq<Seq<char>> {
    Seq::new(v.len(), |i: int| v[i]@)
}

/// The pieces into which the separator `sep` cuts `s`: one more than there
/// are separators in `s`, none of them holding a separator.
pub open spec fn split_spec(s: Seq<char>, sep: char) -> Seq<Seq<char>>
    decreases s.len(),
{
    if s.len() == 0 {
        seq![Seq::empty()]
    } else {
        let before = split_spec(s.drop_last(), sep);
        if s.last() == sep {
            before.push(Seq::empty())
        } else {
            before.drop_last().push(before.last().push(s.last()))
        }
    }
}

/// The pieces into which the separator `sep` cuts `v`.
pub fn split(v: &Vec<char>, sep: char) -> (r: Vec<Vec<char>>)
    ensures
        chars_view(r@) == split_spec(v@, sep),
        r@.len() >= 1,
{
    let mut pieces: Vec<Vec<char>> = Vec::new();
    let mut cur: Vec<char> = Vec::new();
    let mut i: usize = 0;
    proof {
        assert(v@.take(0) =~= Seq::<char>::empty());
        assert(chars_view(pieces@).push(cur@) =~= split_spec(v@.take(0), sep));
    }
    while i < v.len()
        invariant
            i <= v@.len(),
            chars_view(pieces@).push(cur@) == split_spec(v@.take(i as int), sep),
        decreases v@.len() - i,
    {
        let c = v[i];
        let ghost before = split_spec(v@.take(i as int), sep);
        let ghost old_pieces = chars_view(pieces@);
        let ghost old_cur = cur@;
        proof {
            assert(v@.take(i + 1).drop_last() =~= v@.take(i as int));
            assert(v@.take(i + 1).last() == c);
            assert(before.drop_last() =~= old_pieces);
            assert(before.last() == old_cur);
        }
        if c == sep {
            pieces.push(cur);
            cur = Vec::new();
            proof {
                assert(chars_view(pieces@) =~= old_pieces.push(old_cur));
                assert(chars_view(pieces@).push(cur@) =~= before.push(Seq::empty()));
            }
        } else {
            cur.push(c);
            proof {
                assert(chars_view(pieces@).push(cur@) =~= before.drop_last().push(
                    before.last().push(c),
                ));
            }
        }
        i += 1;
    }
    let ghost old_pieces = chars_view(pieces@);
    let ghost last = cur@;
    pieces.push(cur);
    proof {
        assert(v@.take(v@.len() as int) =~= v@);
        assert(chars_view(pieces@) =~= old_pieces.push(last));
    }
    pieces
}

/// Whether `v` spells exactly the literal `lit`.
pub fn is_text(v: &Vec<char>, lit: &str) -> (b: bool)
    ensures
        b == (v@ == lit@),
{
    let l = to_chars(lit);
    if l.len() != v.len() {
        return false;
    }
    let mut i: usize = 0;
    while i < l.len()
        invariant
            i <= l@.len(),
            l@ == lit@,
            l@.len() == v@.len(),
            forall|j: int| 0 <= j < i ==> v@[j] == l@[j],
        decreases l@.len() - i,
    {
        if v[i] != l[i] {
            return false;
        }
        i += 1;
    }
    proof {
        assert(v@ =~= lit@);
    }
    true
}

/// Whether two buffers hold the same text.
pub fn same_text(a: &Vec<char>, b: &Vec<char>) -> (r: bool)
    ensures
        r == (a@ == b@),
{
    if a.len() != b.len() {
        return false;
    }
    let mut i: usize = 0;
    while i < a.len()
        invariant
            i <= a@.len(),
            a@.len() == b@.len(),
            forall|j: int| 0 <= j < i ==> a@[j] == b@[j],
        decreases a@.len() - i,
    {
        if a[i] != b[i] {
            return false;
        }
        i += 1;
    }
    proof {
        assert(a@ =~= b@);
    }
    true
}

/// Whether `s` starts with `prefix`.
pub open spec fn starts_with(s: Seq<char>, prefix: Seq<char>) -> bool {
    prefix.len() <= s.len() && s.subrange(0, prefix.len() as int) == prefix
}

/// Whether `s` ends with `suffix`.
pub open spec fn ends_with(s: Seq<char>, suffix: Seq<char>) -> bool {
    suffix.len() <= s.len() && s.subrange(s.len() - suffix.len(), s.len() as int) == suffix
}

/// Whether the text of `lit` stands in `v` from index `p` on.
pub fn has_at(v: &Vec<char>, p: usize, lit: &str) -> (b: bool)
    requires
        p <= v@.len(),
    ensures
        b == (p + lit@.len() <= v@.len() && v@.subrange(p as int, p + lit@.len()) == lit@),
{
    crate::scanner::lexer::matches_at(v, p, lit)
}

/// Whether `v` starts with the literal `lit`; with it, the length of the
/// literal.
pub fn has_prefix(v: &Vec<char>, lit: &str) -> (r: (bool, usize))
    ensures
        r.0 == starts_with(v@, lit@),
        r.1 == lit@.len(),
{
    let b = has_at(v, 0, lit);
    let n = lit.unicode_len();
    (b, n)
}

/// Whether `v` ends with the literal `lit`; with it, the length of the
/// literal.
pub fn has_suffix(v: &Vec<char>, lit: &str) -> (r: (bool, usize))
    ensures
        r.0 == ends_with(v@, lit@),
        r.1 == lit@.len(),
{
    let n = lit.unicode_len();
    if n > v.len() {
        (false, n)
    } else {
        (has_at(v, v.len() - n, lit), n)
    }
}

/// The characters `v[from..to]`.
pub fn piece(v: &Vec<char>, from: usize, to: usize) -> (r: Vec<char>)
    requires
        from <= to <= v@.len(),
    ensures
        r@ == v@.subrange(from as int, to as int),
{
    let mut r: Vec<char> = Vec::new();
    let mut i: usize = from;
    while i < to
        invariant
            from <= i <= to <= v@.len(),
            r@ == v@.subrange(from as int, i as int),
        decreases to - i,
    {
        r.push(v[i]);
        proof {
            assert(v@.subrange(from as int, i as int).push(v@[i as int]) =~= v@.subrange(
                from as int,
                i + 1,
            ));
        }
        i += 1;
    }
    r
}

/// The index of the first `c` in `s`, or the length of `s` when there is
/// none.
pub open spec fn first_index(s: Seq<char>, c: char, from: int) -> int
    decreases s.len() - from,
{
    if from < 0 || from >= s.len() {
        s.len() as int
    } else if s[from] == c {
        from
    } else {
        first_index(s, c, from + 1)
    }
}

/// The index after the last `c` in `s[..n]`, or 0 when there is none.
pub open spec fn after_last(s: Seq<char>, c: char, n: int) -> int
    decreases n,
{
    if n <= 0 || n > s.len() {
        0
    } else if s[n - 1] == c {
        n
    } else {
        after_last(s, c, n - 1)
    }
}

/// The index of the first `c` in `v`, or the length of `v` when there is
/// none.
pub fn find_first(v: &Vec<char>, c: char) -> (r: usize)
    ensures
        r == first_index(v@, c, 0),
        r <= v@.len(),
{
    let mut i: usize = 0;
    while i < v.len()
        invariant
            i <= v@.len(),
            first_index(v@, c, 0) == first_index(v@, c, i as int),
        decreases v@.len() - i,
    {
        if v[i] == c {
            return i;
        }
        i += 1;
    }
    i
}

/// The index after the last `c` in `v`, or 0 when there is none.
pub fn find_after_last(v: &Vec<char>, c: char) -> (r: usize)
    ensures
        r == after_last(v@, c, v@.len() as int),
        r <= v@.len(),
{
    let mut n: usize = v.len();
    while n > 0
        invariant
            n <= v@.len(),
            after_last(v@, c, v@.len() as int) == after_last(v@, c, n as int),
        decreases n,
    {
        if v[n - 1] == c {
            return n;
        }
        n -= 1;
    }
    0
}

/// The number that `s` spells in decimal digits, if it is not empty and
/// holds nothing but digits.
pub open spec fn nat_of(s: Seq<char>) -> Option<nat> {
    if s.len() > 0 && all_digits(s) {
        Some(digits_value(s))
    } else {
        None
    }
}

/// The number that `s` spells, if it spells one that a `usize` can hold.
pub open spec fn usize_of(s: Seq<char>) -> Option<usize> {
    match nat_of(s) {
        Some(n) => if n <= usize::MAX {
            Some(n as usize)
        } else {
            None
        },
        None => None,
    }
}

/// The number that `s` spells, with or without a minus sign before it, if
/// it spells one that an `i32` can hold.
pub open spec fn i32_of(s: Seq<char>) -> Option<i32> {
    if s.len() > 0 && s[0] == '-' {
        match nat_of(s.subrange(1, s.len() as int)) {
            Some(n) => if n <= 0x8000_0000 {
                Some((-(n as int)) as i32)
            } else {
                None
            },
            None => None,
        }
    } else {
        match nat_of(s) {
            Some(n) => if n <= i32::MAX {
                Some(n as i32)
            } else {
                None
            },
            None => None,
        }
    }
}

/// More digits never spell a smaller number.
pub proof fn lemma_digits_grow(s: Seq<char>, k: int)
    requires
        0 <= k <= s.len(),
    ensures
        digits_value(s.take(k)) <= digits_value(s),
    decreases s.len() - k,
{
    if k < s.len() {
        lemma_digits_grow(s, k + 1);
        assert(s.take(k + 1).drop_last() =~= s.take(k));
    } else {
        assert(s.take(k) =~= s);
    }
}

/// The number that the digits `v[from..to]` spell, when there is at least
/// one character, all of them are digits, and the number is at most
/// `limit`.
pub fn read_digits(v: &Vec<char>, from: usize, to: usize, limit: u64) -> (r: Option<u64>)
    requires
        from <= to <= v@.len(),
    ensures
        r == (match nat_of(v@.subrange(from as int, to as int)) {
            Some(n) => if n <= limit {
                Some(n as u64)
            } else {
                None
            },
            None => None,
        }),
{
    let ghost s = v@.subrange(from as int, to as int);
    if from == to {
        return None;
    }
    let mut acc: u64 = 0;
    let mut i: usize = from;
    proof {
        assert(s.take(0) =~= Seq::<char>::empty());
    }
    while i < to
        invariant
            from <= i <= to <= v@.len(),
            s == v@.subrange(from as int, to as int),
            acc == digits_value(s.take(i - from)),
            acc <= limit,
            forall|j: int| 0 <= j < i - from ==> is_digit(#[trigger] s[j]),
        decreases to - i,
    {
        let c = v[i];
        proof {
            assert(s[i - from] == c);
            assert(s.take(i - from + 1).drop_last() =~= s.take(i - from));
            assert(s.take(i - from + 1).last() == c);
        }
        if !('0' <= c && c <= '9') {
            proof {
                assert(!is_digit(s[i - from]));
            }
            return None;
        }
        let d: u64 = (c as u32 - '0' as u32) as u64;
        if d > limit || acc > (limit - d) / 10 {
            proof {
                assert(acc * 10 + d > limit);
                if all_digits(s) {
                    lemma_digits_grow(s, i - from + 1);
                }
            }
            return None;
        }
        acc = acc * 10 + d;
        i += 1;
    }
    proof {
        assert(s.take(to - from) =~= s);
        assert(all_digits(s));
    }
    Some(acc)
}

/// The number that `v` spells, if it spells one that a `usize` can hold.
pub fn read_usize(v: &Vec<char>) -> (r: Option<usize>)
    ensures
        r == usize_of(v@),
{
    proof {
        assert(v@.subrange(0, v@.len() as int) =~= v@);
    }
    match read_digits(v, 0, v.len(), usize::MAX as u64) {
        Some(n) => Some(n as usize),
        None => None,
    }
}

/// The number that `v` spells, with or without a minus sign before it, if
/// it spells one that an `i32` can hold.
pub fn read_i32(v: &Vec<char>) -> (r: Option<i32>)
    ensures
        r == i32_of(v@),
{
    if v.len() > 0 && v[0] == '-' {
        match read_digits(v, 1, v.len(), 0x8000_0000) {
            Some(n) => Some((-(n as i64)) as i32),
            None => None,
        }
    } else {
        proof {
            assert(v@.subrange(0, v@.len() as int) =~= v@);
        }
        match read_digits(v, 0, v.len(), 0x7fff_ffff) {
            Some(n) => Some(n as i32),
            None => None,
        }
    }
}

/// The text of a character buffer as a string.
pub fn string_of(v: &Vec<char>) -> (s: String)
    ensures
        s@ == v@,
{
    let s = slice_to_string(v, 0, v.len());
    proof {
        assert(v@.subrange(0, v@.len() as int) =~= v@);
    }
    s
}

/// What is left of `w` after its first `n` characters.
pub open spec fn after(w: Seq<char>, n: nat) -> Seq<char> {
    if n <= w.len() {
        w.subrange(n as int, w.len() as int)
    } else {
        Seq::empty()
    }
}

/// What is left of `v` after its first `n` characters.
pub fn rest(v: &Vec<char>, n: usize) -> (r: Vec<char>)
    ensures
        r@ == after(v@, n as nat),
{
    if n <= v.len() {
        piece(v, n, v.len())
    } else {
        Vec::new()
    }
}


} // verus!
