//! Splitting a text into lines and joining lines into a text.

use vstd::prelude::*;
use crate::text::{chars_of, copy_range, extend};

verus! {

/// The lines held by a vector of texts.
pub open spec fn lines_view(v: Seq<Vec<char>>) -> Seq<Seq<char>> {
    Seq::new(v.len(), |i: int| v[i]@)
}

/// `s` without the carriage return at its end.
pub open spec fn strip_cr(s: Seq<char>) -> Seq<char> {
    if s.len() > 0 && s[s.len() - 1] == '\r' {
        s.subrange(0, s.len() - 1)
    } else {
        s
    }
}

/// The lines of `s` from index `i` on, where the line being read began at
/// `start`. A line ends at a line feed; a carriage return just before that
/// line feed belongs to the line ending. What follows the last line feed is a
/// line only if it is not empty.
pub open spec fn lines_scan(s: Seq<char>, start: int, i: int) -> Seq<Seq<char>>
    decreases s.len() - i,
{
    if i < 0 || i >= s.len() {
        if 0 <= start < s.len() {
            seq![s.subrange(start, s.len() as int)]
        } else {
            Seq::empty()
        }
    } else if s[i] == '\n' {
        seq![strip_cr(s.subrange(start, i))] + lines_scan(s, i + 1, i + 1)
    } else {
        lines_scan(s, start, i + 1)
    }
}

/// The lines of `s`.
pub open spec fn lines_of(s: Seq<char>) -> Seq<Seq<char>> {
    lines_scan(s, 0, 0)
}

/// The lines `ls[a..n]` with `sep` between each two neighbours.
pub open spec fn join_between(ls: Seq<Seq<char>>, sep: Seq<char>, a: int, n: int) -> Seq<char>
    decreases n - a,
{
    if n <= a {
        Seq::empty()
    } else if n == a + 1 {
        ls[a]
    } else {
        join_between(ls, sep, a, n - 1) + sep + ls[n - 1]
    }
}

/// The lines `ls` with `sep` between each two neighbours.
pub open spec fn joined(ls: Seq<Seq<char>>, sep: Seq<char>) -> Seq<char> {
    join_between(ls, sep, 0, ls.len() as int)
}

/// Appends a line.
pub fn push_line(out: &mut Vec<Vec<char>>, line: Vec<char>)
    ensures
        lines_view(final(out)@) == lines_view(old(out)@).push(line@),
        final(out)@ == old(out)@.push(line),
{
    out.push(line);
    assert(lines_view(out@) =~= lines_view(old(out)@).push(line@));
}

/// Parts a text into its lines.
pub fn split_lines(v: &Vec<char>) -> (r: Vec<Vec<char>>)
    ensures
        lines_view(r@) == lines_of(v@),
{
    let mut out: Vec<Vec<char>> = Vec::new();
    let mut start: usize = 0;
    let mut i: usize = 0;
    assert(lines_view(out@) =~= Seq::<Seq<char>>::empty());
    while i < v.len()
        invariant
            start <= i <= v.len(),
            lines_view(out@) + lines_scan(v@, start as int, i as int) == lines_of(v@),
        decreases v.len() - i,
    {
        if v[i] == '\n' {
            let mut e: usize = i;
            if e > start && v[e - 1] == '\r' {
                e -= 1;
            }
            let line = copy_range(v, start, e);
            assert(line@ == strip_cr(v@.subrange(start as int, i as int)));
            let ghost before = lines_view(out@);
            let ghost rest = lines_scan(v@, i + 1, i + 1);
            push_line(&mut out, line);
            assert(before.push(line@) + rest =~= before + (seq![line@] + rest));
            i += 1;
            start = i;
        } else {
            i += 1;
        }
    }
    if start < v.len() {
        let line = copy_range(v, start, v.len());
        let ghost before = lines_view(out@);
        push_line(&mut out, line);
        assert(before.push(line@) =~= before + seq![line@]);
    } else {
        assert(lines_view(out@) + Seq::<Seq<char>>::empty() =~= lines_view(out@));
    }
    out
}

/// Joins the lines `lines[a..b]` with `sep` between them.
pub(crate) fn join_range(lines: &Vec<Vec<char>>, a: usize, b: usize, sep: &str) -> (r: Vec<char>)
    requires
        a <= b <= lines.len(),
    ensures
        r@ == join_between(lines_view(lines@), sep@, a as int, b as int),
{
    let mut out: Vec<char> = Vec::new();
    let glue = chars_of(sep);
    let mut k: usize = a;
    while k < b
        invariant
            a <= k <= b <= lines.len(),
            glue@ == sep@,
            out@ == join_between(lines_view(lines@), sep@, a as int, k as int),
        decreases b - k,
    {
        if k > a {
            extend(&mut out, &glue);
        }
        extend(&mut out, &lines[k]);
        k += 1;
        assert(out@ == join_between(lines_view(lines@), sep@, a as int, k as int)) by {
            if k == a + 1 {
                assert(Seq::<char>::empty() + lines@[a as int]@ =~= lines@[a as int]@);
            }
        }
    }
    out
}

/// Joins lines with `sep` between them.
pub fn join_lines(lines: &Vec<Vec<char>>, sep: &str) -> (r: Vec<char>)
    ensures
        r@ == joined(lines_view(lines@), sep@),
{
    join_range(lines, 0, lines.len(), sep)
}

} // verus!
