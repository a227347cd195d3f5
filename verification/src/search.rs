//! Searching a text for a scalar value or for another text.

use vstd::prelude::*;
use crate::text::chars_of;

verus! {

/// An index computed by executable code, as a mathematical integer.
pub open spec fn idx(r: Option<usize>) -> Option<int> {
    match r {
        Some(k) => Some(k as int),
        None => None,
    }
}

/// Whether `p` stands in `s` at index `i`.
pub open spec fn occurs_at(s: Seq<char>, p: Seq<char>, i: int) -> bool {
    0 <= i && i + p.len() <= s.len() && s.subrange(i, i + p.len()) == p
}

/// Whether `s` begins with `p`.
pub open spec fn has_prefix(s: Seq<char>, p: Seq<char>) -> bool {
    occurs_at(s, p, 0)
}

/// Whether `s` ends with `p`.
pub open spec fn has_suffix(s: Seq<char>, p: Seq<char>) -> bool {
    occurs_at(s, p, s.len() - p.len())
}

/// Whether `s` begins with `c`.
pub open spec fn first_is(s: Seq<char>, c: char) -> bool {
    s.len() > 0 && s[0] == c
}

/// Whether `s` ends with `c`.
pub open spec fn last_is(s: Seq<char>, c: char) -> bool {
    s.len() > 0 && s[s.len() - 1] == c
}

/// The first index at or after `i` where `p` stands in `s`.
pub open spec fn find_from(s: Seq<char>, p: Seq<char>, i: int) -> Option<int>
    decreases s.len() - i,
{
    if i < 0 || i + p.len() > s.len() {
        None
    } else if occurs_at(s, p, i) {
        Some(i)
    } else if i >= s.len() {
        None
    } else {
        find_from(s, p, i + 1)
    }
}

/// The first index where `p` stands in `s`.
pub open spec fn find(s: Seq<char>, p: Seq<char>) -> Option<int> {
    find_from(s, p, 0)
}

/// Whether `p` stands somewhere in `s`.
pub open spec fn has(s: Seq<char>, p: Seq<char>) -> bool {
    find(s, p) is Some
}

/// The last index below `n` where `p` stands in `s`.
pub open spec fn rfind_below(s: Seq<char>, p: Seq<char>, n: int) -> Option<int>
    decreases n,
{
    if n <= 0 {
        None
    } else if occurs_at(s, p, n - 1) {
        Some(n - 1)
    } else {
        rfind_below(s, p, n - 1)
    }
}

/// The last index where `p` stands in `s`.
pub open spec fn rfind(s: Seq<char>, p: Seq<char>) -> Option<int> {
    rfind_below(s, p, s.len() as int + 1)
}

/// The first index at or after `i` that holds `c`.
pub open spec fn find_char_from(s: Seq<char>, c: char, i: int) -> Option<int>
    decreases s.len() - i,
{
    if i < 0 || i >= s.len() {
        None
    } else if s[i] == c {
        Some(i)
    } else {
        find_char_from(s, c, i + 1)
    }
}

/// The first index that holds `c`.
pub open spec fn find_char(s: Seq<char>, c: char) -> Option<int> {
    find_char_from(s, c, 0)
}

/// Whether `s` holds `c`.
pub open spec fn has_char(s: Seq<char>, c: char) -> bool {
    find_char(s, c) is Some
}

/// The last index below `n` that holds `c`.
pub open spec fn rfind_char_below(s: Seq<char>, c: char, n: int) -> Option<int>
    decreases n,
{
    if n <= 0 || n > s.len() {
        None
    } else if s[n - 1] == c {
        Some(n - 1)
    } else {
        rfind_char_below(s, c, n - 1)
    }
}

/// The last index that holds `c`.
pub open spec fn rfind_char(s: Seq<char>, c: char) -> Option<int> {
    rfind_char_below(s, c, s.len() as int)
}

/// What is found is the first `c` at or after `i`; nothing is found only where
/// there is no `c`.
pub proof fn lemma_find_char_from(s: Seq<char>, c: char, i: int)
    requires
        0 <= i <= s.len(),
    ensures
        match find_char_from(s, c, i) {
            Some(k) => i <= k < s.len() && s[k] == c && forall|j: int| i <= j < k ==> s[j] != c,
            None => forall|j: int| i <= j < s.len() ==> s[j] != c,
        },
    decreases s.len() - i,
{
    if i < s.len() && s[i] != c {
        lemma_find_char_from(s, c, i + 1);
    }
}

/// What is found is the first place at or after `i` where `p` stands; nothing is
/// found only where it stands nowhere.
pub proof fn lemma_find_from(s: Seq<char>, p: Seq<char>, i: int)
    requires
        0 <= i,
    ensures
        match find_from(s, p, i) {
            Some(k) => i <= k && occurs_at(s, p, k) && forall|j: int|
                i <= j < k ==> !occurs_at(s, p, j),
            None => forall|j: int| i <= j ==> !occurs_at(s, p, j),
        },
    decreases s.len() - i,
{
    if i + p.len() <= s.len() && !occurs_at(s, p, i) {
        if i < s.len() {
            lemma_find_from(s, p, i + 1);
        } else {
            assert(s.subrange(i, i + p.len()) =~= p);
        }
    }
}

/// Whether `p` stands in `v` at index `i`.
pub fn matches_at(v: &Vec<char>, p: &Vec<char>, i: usize) -> (b: bool)
    ensures
        b == occurs_at(v@, p@, i as int),
{
    if p.len() > v.len() || i > v.len() - p.len() {
        return false;
    }
    let mut k: usize = 0;
    while k < p.len()
        invariant
            k <= p.len(),
            i + p.len() <= v.len(),
            v@.subrange(i as int, i + k) == p@.take(k as int),
        decreases p.len() - k,
    {
        if v[i + k] != p[k] {
            assert(v@.subrange(i as int, i + p.len())[k as int] != p@[k as int]);
            return false;
        }
        k += 1;
    }
    assert(p@.take(p.len() as int) == p@);
    true
}

/// Whether `v` begins with `p`.
pub fn starts_with(v: &Vec<char>, p: &str) -> (b: bool)
    ensures
        b == has_prefix(v@, p@),
{
    let q = chars_of(p);
    matches_at(v, &q, 0)
}

/// Whether `v` ends with `p`.
pub fn ends_with(v: &Vec<char>, p: &str) -> (b: bool)
    ensures
        b == has_suffix(v@, p@),
{
    let q = chars_of(p);
    if q.len() > v.len() {
        return false;
    }
    matches_at(v, &q, v.len() - q.len())
}

/// Whether `v` begins with `c`.
pub fn begins_with_char(v: &Vec<char>, c: char) -> (b: bool)
    ensures
        b == first_is(v@, c),
{
    v.len() > 0 && v[0] == c
}

/// Whether `v` ends with `c`.
pub fn ends_with_char(v: &Vec<char>, c: char) -> (b: bool)
    ensures
        b == last_is(v@, c),
{
    v.len() > 0 && v[v.len() - 1] == c
}

/// The first index at or after `from` where `p` stands in `v`.
pub fn find_text_from(v: &Vec<char>, p: &Vec<char>, from: usize) -> (r: Option<usize>)
    ensures
        idx(r) == find_from(v@, p@, from as int),
        r matches Some(k) ==> from <= k && k + p.len() <= v.len(),
{
    if p.len() > v.len() {
        return None;
    }
    let last: usize = v.len() - p.len();
    let mut i: usize = from;
    while i <= last
        invariant
            from <= i,
            last == v.len() - p.len(),
            find_from(v@, p@, i as int) == find_from(v@, p@, from as int),
        decreases last + 1 - i,
    {
        if matches_at(v, p, i) {
            return Some(i);
        }
        if i == last {
            assert(find_from(v@, p@, i + 1) is None);
            return None;
        }
        i += 1;
    }
    None
}

/// The first index where `p` stands in `v`.
pub fn find_str(v: &Vec<char>, p: &str) -> (r: Option<usize>)
    ensures
        idx(r) == find(v@, p@),
        r matches Some(k) ==> k + p@.len() <= v.len(),
{
    let q = chars_of(p);
    find_text_from(v, &q, 0)
}

/// Whether `p` stands somewhere in `v`.
pub fn contains_str(v: &Vec<char>, p: &str) -> (b: bool)
    ensures
        b == has(v@, p@),
{
    find_str(v, p).is_some()
}

/// The last index where `p` stands in `v`.
pub fn rfind_str(v: &Vec<char>, p: &str) -> (r: Option<usize>)
    ensures
        idx(r) == rfind(v@, p@),
        r matches Some(k) ==> k + p@.len() <= v.len(),
{
    let q = chars_of(p);
    let mut n: usize = v.len();
    if matches_at(v, &q, n) {
        return Some(n);
    }
    assert(rfind_below(v@, q@, n as int) == rfind_below(v@, q@, n + 1));
    while n > 0
        invariant
            n <= v.len(),
            q@ == p@,
            rfind_below(v@, q@, n as int) == rfind_below(v@, q@, v.len() + 1),
        decreases n,
    {
        if matches_at(v, &q, n - 1) {
            return Some(n - 1);
        }
        n -= 1;
    }
    None
}

/// The first index at or after `from` that holds `c`.
pub fn find_char_in(v: &Vec<char>, c: char, from: usize) -> (r: Option<usize>)
    ensures
        idx(r) == find_char_from(v@, c, from as int),
        r matches Some(k) ==> from <= k < v.len() && v@[k as int] == c,
{
    let mut i: usize = from;
    while i < v.len()
        invariant
            from <= i,
            find_char_from(v@, c, i as int) == find_char_from(v@, c, from as int),
        decreases v.len() - i,
    {
        if v[i] == c {
            return Some(i);
        }
        i += 1;
    }
    None
}

/// Whether `v` holds `c`.
pub fn contains_char(v: &Vec<char>, c: char) -> (b: bool)
    ensures
        b == has_char(v@, c),
{
    find_char_in(v, c, 0).is_some()
}

/// The last index that holds `c`.
pub fn rfind_char_in(v: &Vec<char>, c: char) -> (r: Option<usize>)
    ensures
        idx(r) == rfind_char(v@, c),
        r matches Some(k) ==> k < v.len() && v@[k as int] == c,
{
    let mut n: usize = v.len();
    while n > 0
        invariant
            n <= v.len(),
            rfind_char_below(v@, c, n as int) == rfind_char_below(v@, c, v.len() as int),
        decreases n,
    {
        if v[n - 1] == c {
            return Some(n - 1);
        }
        n -= 1;
    }
    None
}

} // verus!
