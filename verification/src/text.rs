//! Text primitives over `Vec<char>`, each with an exact model over `Seq<char>`.

use vstd::prelude::*;

verus! {

/// `String::push` appends one scalar value to the end of the string.
pub assume_specification[ String::push ](s: &mut String, ch: char)
    ensures
        final(s)@ == old(s)@.push(ch),
;

/// The scalar values of `s`, in order.
pub fn chars_of(s: &str) -> (v: Vec<char>)
    ensures
        v@ == s@,
{
    let mut v: Vec<char> = Vec::new();
    for c in it: s.chars()
        invariant
            it.seq() == s@,
            v@ == s@.take(it.index()),
    {
        assert(s@.take(it.index() + 1) == s@.take(it.index()).push(c));
        v.push(c);
    }
    assert(s@.take(s@.len() as int) == s@);
    v
}

/// The string made of the scalar values of `v`, in order.
pub fn string_of(v: &Vec<char>) -> (s: String)
    ensures
        s@ == v@,
{
    let mut s = String::new();
    let mut i: usize = 0;
    while i < v.len()
        invariant
            i <= v.len(),
            s@ == v@.take(i as int),
        decreases v.len() - i,
    {
        s.push(v[i]);
        i += 1;
        assert(v@.take(i as int) == v@.take(i - 1).push(v@[i - 1]));
    }
    assert(v@.take(v.len() as int) == v@);
    s
}

/// A copy of the scalar values of `v` from index `a` up to, not including, `b`.
pub(crate) fn copy_range(v: &Vec<char>, a: usize, b: usize) -> (r: Vec<char>)
    requires
        a <= b <= v.len(),
    ensures
        r@ == v@.subrange(a as int, b as int),
{
    let mut r: Vec<char> = Vec::new();
    let mut i: usize = a;
    while i < b
        invariant
            a <= i <= b <= v.len(),
            r@ == v@.subrange(a as int, i as int),
        decreases b - i,
    {
        r.push(v[i]);
        i += 1;
    }
    r
}

/// A copy of `v`.
pub fn copy_text(v: &Vec<char>) -> (r: Vec<char>)
    ensures
        r@ == v@,
{
    let r = copy_range(v, 0, v.len());
    assert(v@.subrange(0, v.len() as int) == v@);
    r
}

/// Appends the scalar values of `v` to `out`.
pub fn extend(out: &mut Vec<char>, v: &Vec<char>)
    ensures
        final(out)@ == old(out)@ + v@,
{
    let mut i: usize = 0;
    while i < v.len()
        invariant
            i <= v.len(),
            out@ == old(out)@ + v@.take(i as int),
        decreases v.len() - i,
    {
        out.push(v[i]);
        i += 1;
    }
    assert(v@.take(v.len() as int) == v@);
}

/// Appends the scalar values of the string `s` to `out`.
pub fn push_str(out: &mut Vec<char>, s: &str)
    ensures
        final(out)@ == old(out)@ + s@,
{
    let v = chars_of(s);
    extend(out, &v);
}

/// Whether two texts hold the same scalar values.
pub fn same_text(a: &Vec<char>, b: &Vec<char>) -> (r: bool)
    ensures
        r == (a@ == b@),
{
    if a.len() != b.len() {
        return false;
    }
    let mut i: usize = 0;
    while i < a.len()
        invariant
            i <= a.len(),
            a.len() == b.len(),
            a@.take(i as int) == b@.take(i as int),
        decreases a.len() - i,
    {
        if a[i] != b[i] {
            return false;
        }
        i += 1;
        assert(a@.take(i as int) == a@.take(i - 1).push(a@[i - 1]));
        assert(b@.take(i as int) == b@.take(i - 1).push(b@[i - 1]));
    }
    assert(a@.take(a.len() as int) == a@);
    assert(b@.take(b.len() as int) == b@);
    true
}

/// Whether the text `v` reads exactly as the string `s`.
pub fn is_str(v: &Vec<char>, s: &str) -> (r: bool)
    ensures
        r == (v@ == s@),
{
    let p = chars_of(s);
    same_text(v, &p)
}

/// The scalar values that count as white space: those with the Unicode
/// property `White_Space`.
pub open spec fn is_space(c: char) -> bool {
    let n = c as u32;
    (9 <= n <= 13) || n == 0x20 || n == 0x85 || n == 0xA0 || n == 0x1680 || (0x2000 <= n
        <= 0x200A) || n == 0x2028 || n == 0x2029 || n == 0x202F || n == 0x205F || n == 0x3000
}

/// Whether `c` is white space.
pub fn is_whitespace(c: char) -> (b: bool)
    ensures
        b == is_space(c),
{
    let n: u32 = c as u32;
    (9 <= n && n <= 13) || n == 0x20 || n == 0x85 || n == 0xA0 || n == 0x1680 || (0x2000 <= n
        && n <= 0x200A) || n == 0x2028 || n == 0x2029 || n == 0x202F || n == 0x205F || n
        == 0x3000
}

/// The first index at or after `i` that holds no white space, or the length
/// of `s` if there is none.
pub open spec fn skip_spaces(s: Seq<char>, i: int) -> int
    decreases s.len() - i,
{
    if 0 <= i < s.len() && is_space(s[i]) {
        skip_spaces(s, i + 1)
    } else {
        i
    }
}

/// The length that is left of the first `n` values of `s` once the white
/// space at their end is dropped.
pub open spec fn drop_spaces(s: Seq<char>, n: int) -> int
    decreases n,
{
    if 0 < n <= s.len() && is_space(s[n - 1]) {
        drop_spaces(s, n - 1)
    } else {
        n
    }
}

/// The number of white-space values that `s` begins with.
pub open spec fn indent(s: Seq<char>) -> int {
    skip_spaces(s, 0)
}

/// Whether `s` holds nothing but white space.
pub open spec fn blank(s: Seq<char>) -> bool {
    skip_spaces(s, 0) >= s.len()
}

/// `s` without the white space at its start.
pub open spec fn trimmed_start(s: Seq<char>) -> Seq<char> {
    s.subrange(skip_spaces(s, 0), s.len() as int)
}

/// `s` without the white space at its end.
pub open spec fn trimmed_end(s: Seq<char>) -> Seq<char> {
    s.subrange(0, drop_spaces(s, s.len() as int))
}

/// `s` without the white space at its start and at its end.
pub open spec fn trimmed(s: Seq<char>) -> Seq<char> {
    trimmed_end(trimmed_start(s))
}

proof fn lemma_skip_spaces(s: Seq<char>, i: int)
    requires
        0 <= i <= s.len(),
    ensures
        i <= skip_spaces(s, i) <= s.len(),
        skip_spaces(s, i) < s.len() ==> !is_space(s[skip_spaces(s, i)]),
    decreases s.len() - i,
{
    if i < s.len() && is_space(s[i]) {
        lemma_skip_spaces(s, i + 1);
    }
}

proof fn lemma_drop_spaces_stops(s: Seq<char>, n: int)
    requires
        0 < n <= s.len(),
        !is_space(s[0]),
    ensures
        0 < drop_spaces(s, n) <= n,
    decreases n,
{
    if n > 1 && is_space(s[n - 1]) {
        lemma_drop_spaces_stops(s, n - 1);
    }
}

/// A text is blank exactly if nothing is left of it once it is trimmed.
pub proof fn lemma_blank_is_trimmed_to_nothing(s: Seq<char>)
    ensures
        blank(s) <==> trimmed(s).len() == 0,
{
    lemma_skip_spaces(s, 0);
    let k = skip_spaces(s, 0);
    let t = trimmed_start(s);
    if k < s.len() {
        assert(t[0] == s[k]);
        lemma_drop_spaces_stops(t, t.len() as int);
    } else {
        assert(t.len() == 0);
        assert(drop_spaces(t, 0) == 0);
    }
}

/// The number of white-space values that `v` begins with.
pub fn indent_of(v: &Vec<char>) -> (n: usize)
    ensures
        n == indent(v@),
        n <= v.len(),
{
    let mut i: usize = 0;
    while i < v.len() && is_whitespace(v[i])
        invariant
            i <= v.len(),
            skip_spaces(v@, i as int) == skip_spaces(v@, 0),
        decreases v.len() - i,
    {
        i += 1;
    }
    i
}

/// Whether `v` holds nothing but white space.
pub fn is_blank(v: &Vec<char>) -> (b: bool)
    ensures
        b == blank(v@),
{
    indent_of(v) >= v.len()
}

/// A copy of `v` without the white space at its start.
pub fn trim_start(v: &Vec<char>) -> (r: Vec<char>)
    ensures
        r@ == trimmed_start(v@),
{
    let a = indent_of(v);
    copy_range(v, a, v.len())
}

/// A copy of `v` without the white space at its end.
pub fn trim_end(v: &Vec<char>) -> (r: Vec<char>)
    ensures
        r@ == trimmed_end(v@),
{
    let mut n: usize = v.len();
    while n > 0 && is_whitespace(v[n - 1])
        invariant
            n <= v.len(),
            drop_spaces(v@, n as int) == drop_spaces(v@, v.len() as int),
        decreases n,
    {
        n -= 1;
    }
    copy_range(v, 0, n)
}

/// A copy of `v` without the white space at its start and at its end.
pub fn trim(v: &Vec<char>) -> (r: Vec<char>)
    ensures
        r@ == trimmed(v@),
{
    let t = trim_start(v);
    trim_end(&t)
}

/// The length that is left of the first `n` values of `s` once every `c` at
/// their end is dropped.
pub open spec fn drop_trailing(s: Seq<char>, c: char, n: int) -> int
    decreases n,
{
    if 0 < n <= s.len() && s[n - 1] == c {
        drop_trailing(s, c, n - 1)
    } else {
        n
    }
}

/// `s` without the run of `c` at its end.
pub open spec fn without_trailing(s: Seq<char>, c: char) -> Seq<char> {
    s.subrange(0, drop_trailing(s, c, s.len() as int))
}

/// A copy of `v` without the run of `c` at its end.
pub fn trim_end_char(v: &Vec<char>, c: char) -> (r: Vec<char>)
    ensures
        r@ == without_trailing(v@, c),
{
    let mut n: usize = v.len();
    while n > 0 && v[n - 1] == c
        invariant
            n <= v.len(),
            drop_trailing(v@, c, n as int) == drop_trailing(v@, c, v.len() as int),
        decreases n,
    {
        n -= 1;
    }
    copy_range(v, 0, n)
}

/// A copy of `v` without its first `n` values.
pub(crate) fn skip(v: &Vec<char>, n: usize) -> (r: Vec<char>)
    requires
        n <= v.len(),
    ensures
        r@ == v@.subrange(n as int, v.len() as int),
{
    copy_range(v, n, v.len())
}

/// A copy of the first `n` values of `v`.
pub(crate) fn take(v: &Vec<char>, n: usize) -> (r: Vec<char>)
    requires
        n <= v.len(),
    ensures
        r@ == v@.subrange(0, n as int),
{
    copy_range(v, 0, n)
}

/// Appends `s` to `out` where `cond` holds.
pub fn push_if(out: &mut Vec<char>, cond: bool, s: &str)
    ensures
        final(out)@ == old(out)@ + if cond {
            s@
        } else {
            Seq::empty()
        },
{
    if cond {
        push_str(out, s);
    } else {
        assert(out@ + Seq::<char>::empty() =~= out@);
    }
}

/// `a`, then `b`, then `c`.
pub fn concat3(a: &str, b: &Vec<char>, c: &str) -> (r: Vec<char>)
    ensures
        r@ == a@ + b@ + c@,
{
    let mut out = chars_of(a);
    extend(&mut out, b);
    push_str(&mut out, c);
    out
}

/// `a`, `b`, `c`, `d` and `e` in this order.
pub fn concat5(a: &str, b: &Vec<char>, c: &str, d: &Vec<char>, e: &str) -> (r: Vec<char>)
    ensures
        r@ == a@ + b@ + c@ + d@ + e@,
{
    let mut out = chars_of(a);
    extend(&mut out, b);
    push_str(&mut out, c);
    extend(&mut out, d);
    push_str(&mut out, e);
    out
}

/// Appends `piece` to `out` where `cond` holds.
pub fn extend_if(out: &mut Vec<char>, cond: bool, piece: &Vec<char>)
    ensures
        final(out)@ == old(out)@ + if cond {
            piece@
        } else {
            Seq::empty()
        },
{
    if cond {
        extend(out, piece);
    } else {
        assert(out@ + Seq::<char>::empty() =~= out@);
    }
}

/// One associativity step for texts built piece by piece.
pub proof fn lemma_concat_assoc(a: Seq<char>, b: Seq<char>, c: Seq<char>)
    ensures
        (a + b) + c == a + (b + c),
{
    assert((a + b) + c =~= a + (b + c));
}

} // verus!
