//! Inline markup inside table cells, where backslash escapes are read
//! first and the entities that they leave are kept as they are.

use vstd::prelude::*;
use crate::html_utils::{escape, escaped, unescape, unescaped};
use crate::inline::{em_end_from, inline_html, lemma_em_end_from, process_inline_text};
use crate::search::{contains_char, find_from, find_text_from, has_char, idx, lemma_find_from};
use crate::text::{
    chars_of, copy_range, extend, is_space, is_whitespace, lemma_concat_assoc, push_str,
};

verus! {

/// Where the scan for the end of an entity stops: at the first `;` or white
/// space at or after `j`, at most ten values after the `&` at `i`, or at the
/// end of the text.
pub open spec fn entity_stop(s: Seq<char>, i: int, j: int) -> int
    decreases s.len() - j,
{
    if 0 <= j < s.len() && j < i + 10 && s[j] != ';' && !is_space(s[j]) {
        entity_stop(s, i, j + 1)
    } else {
        j
    }
}

/// The scan for the end of an entity stays within the text.
pub proof fn lemma_entity_stop(s: Seq<char>, i: int, j: int)
    requires
        0 <= j <= s.len(),
    ensures
        j <= entity_stop(s, i, j) <= s.len(),
    decreases s.len() - j,
{
    if j < s.len() && j < i + 10 && s[j] != ';' && !is_space(s[j]) {
        lemma_entity_stop(s, i, j + 1);
    }
}

/// Where literal code that opens at `i` ends.
pub open spec fn cell_code_end(s: Seq<char>, i: int) -> Option<int> {
    if 0 <= i && i + 1 < s.len() && s[i] == '`' && s[i + 1] == '`' {
        find_from(s, "``"@, i + 2)
    } else {
        None
    }
}

/// Where strong text that opens at `i` ends: at the next two stars.
pub open spec fn cell_strong_end(s: Seq<char>, i: int) -> Option<int> {
    if 0 <= i && i + 1 < s.len() && s[i] == '*' && s[i + 1] == '*' {
        find_from(s, "**"@, i + 2)
    } else {
        None
    }
}

/// Where emphasis that opens at `i` ends.
pub open spec fn cell_em_end(s: Seq<char>, i: int) -> Option<int> {
    if 0 <= i < s.len() && s[i] == '*' && !(i + 1 < s.len() && s[i + 1] == '*') {
        em_end_from(s, i + 1)
    } else {
        None
    }
}

/// The HTML of the span that begins at `i` in a cell whose escapes were
/// read, and the index after that span: an entity is kept, literal code,
/// strong text and emphasis hold escaped text, `<` and `>` become
/// entities.
pub open spec fn entity_span(s: Seq<char>, i: int) -> (Seq<char>, int) {
    if s[i] == '&' {
        let j = entity_stop(s, i, i + 1);
        if j < s.len() && s[j] == ';' {
            (s.subrange(i, j + 1), j + 1)
        } else {
            ("&amp;"@, i + 1)
        }
    } else if cell_code_end(s, i) is Some {
        let end = cell_code_end(s, i).unwrap();
        ("<code>"@ + escaped(s.subrange(i + 2, end)) + "</code>"@, end + 2)
    } else if cell_strong_end(s, i) is Some {
        let end = cell_strong_end(s, i).unwrap();
        ("<strong>"@ + escaped(s.subrange(i + 2, end)) + "</strong>"@, end + 2)
    } else if cell_em_end(s, i) is Some {
        let end = cell_em_end(s, i).unwrap();
        ("<em>"@ + escaped(s.subrange(i + 1, end)) + "</em>"@, end + 1)
    } else if s[i] == '<' {
        ("&lt;"@, i + 1)
    } else if s[i] == '>' {
        ("&gt;"@, i + 1)
    } else {
        (seq![s[i]], i + 1)
    }
}

/// The HTML of a cell text from index `i` on. No span is empty, so the scan
/// always moves on.
pub open spec fn entity_from(s: Seq<char>, i: int) -> Seq<char>
    decreases s.len() - i,
{
    if i < 0 || i >= s.len() {
        Seq::empty()
    } else {
        let (piece, next) = entity_span(s, i);
        if i < next <= s.len() {
            piece + entity_from(s, next)
        } else {
            piece
        }
    }
}

/// Every span of a cell ends after its start and within the text.
pub proof fn lemma_entity_span_advances(s: Seq<char>, i: int)
    requires
        0 <= i < s.len(),
    ensures
        i < entity_span(s, i).1 <= s.len(),
{
    reveal_strlit("``");
    reveal_strlit("**");
    lemma_entity_stop(s, i, i + 1);
    lemma_find_from(s, "``"@, i + 2);
    lemma_find_from(s, "**"@, i + 2);
    lemma_em_end_from(s, i + 1);
}

/// The HTML of a cell text whose escapes were read.
pub open spec fn entity_inline(s: Seq<char>) -> Seq<char> {
    entity_from(s, 0)
}

/// The HTML of a cell text: with a backslash in it, its escapes are read
/// first and the entities that they leave are kept.
pub open spec fn cell_inline(text: Seq<char>) -> Seq<char> {
    if has_char(text, '\\') {
        entity_inline(unescaped(text))
    } else {
        inline_html(text)
    }
}

fn wrap_escaped(open: &str, v: &Vec<char>, a: usize, b: usize, close: &str) -> (r: Vec<char>)
    requires
        a <= b <= v.len(),
    ensures
        r@ == open@ + escaped(v@.subrange(a as int, b as int)) + close@,
{
    let mut out = chars_of(open);
    let inner = copy_range(v, a, b);
    let e = escape(&inner);
    extend(&mut out, &e);
    push_str(&mut out, close);
    out
}

fn entity_step(v: &Vec<char>, i: usize) -> (r: (Vec<char>, usize))
    requires
        i < v.len(),
    ensures
        (r.0@, r.1 as int) == entity_span(v@, i as int),
        i < r.1 <= v.len(),
{
    let c = v[i];
    if c == '&' {
        let mut j: usize = i + 1;
        while j < v.len() && j - i < 10 && v[j] != ';' && !is_whitespace(v[j])
            invariant
                i < j <= v.len(),
                entity_stop(v@, i as int, j as int) == entity_stop(v@, i as int, i + 1),
            decreases v.len() - j,
        {
            j += 1;
        }
        if j < v.len() && v[j] == ';' {
            return (copy_range(v, i, j + 1), j + 1);
        }
        return (chars_of("&amp;"), i + 1);
    }
    proof {
        reveal_strlit("``");
        reveal_strlit("**");
    }
    if v.len() - i > 1 && c == '`' && v[i + 1] == '`' {
        let mark = chars_of("``");
        if let Some(end) = find_text_from(v, &mark, i + 2) {
            return (wrap_escaped("<code>", v, i + 2, end, "</code>"), end + 2);
        }
    }
    if v.len() - i > 1 && c == '*' && v[i + 1] == '*' {
        let mark = chars_of("**");
        if let Some(end) = find_text_from(v, &mark, i + 2) {
            return (wrap_escaped("<strong>", v, i + 2, end, "</strong>"), end + 2);
        }
    }
    if c == '*' && !(v.len() - i > 1 && v[i + 1] == '*') {
        if let Some(end) = cell_em_end_of(v, i) {
            return (wrap_escaped("<em>", v, i + 1, end, "</em>"), end + 1);
        }
    }
    if c == '<' {
        (chars_of("&lt;"), i + 1)
    } else if c == '>' {
        (chars_of("&gt;"), i + 1)
    } else {
        let mut piece: Vec<char> = Vec::new();
        piece.push(c);
        assert(piece@ =~= seq![c]);
        (piece, i + 1)
    }
}

fn cell_em_end_of(v: &Vec<char>, i: usize) -> (r: Option<usize>)
    requires
        i < v.len(),
        v@[i as int] == '*',
    ensures
        idx(r) == em_end_from(v@, i + 1),
        r matches Some(k) ==> i + 1 <= k && k + 1 <= v.len(),
{
    let mut k: usize = i + 1;
    while k < v.len()
        invariant
            i + 1 <= k,
            em_end_from(v@, k as int) == em_end_from(v@, i + 1),
        decreases v.len() - k,
    {
        if v[k] == '*' && (v.len() - k <= 1 || v[k + 1] != '*') {
            return Some(k);
        }
        k += 1;
    }
    None
}

/// Renders a cell text whose escapes were read.
pub fn process_inline_already_escaped(v: &Vec<char>) -> (r: Vec<char>)
    ensures
        r@ == entity_inline(v@),
{
    let mut out: Vec<char> = Vec::new();
    let mut i: usize = 0;
    while i < v.len()
        invariant
            i <= v.len(),
            out@ + entity_from(v@, i as int) == entity_inline(v@),
        decreases v.len() - i,
    {
        let ghost before = out@;
        let (piece, next) = entity_step(v, i);
        extend(&mut out, &piece);
        proof {
            lemma_concat_assoc(before, piece@, entity_from(v@, next as int));
        }
        i = next;
    }
    assert(out@ + Seq::<char>::empty() =~= out@);
    out
}

/// Renders the text of a cell.
pub fn process_inline_with_escapes(text: &Vec<char>) -> (r: Vec<char>)
    ensures
        r@ == cell_inline(text@),
{
    if contains_char(text, '\\') {
        let u = unescape(text);
        process_inline_already_escaped(&u)
    } else {
        process_inline_text(text)
    }
}

} // verus!
