//! Inline markup: one scan from left to right over a run of text.

use vstd::prelude::*;
use crate::html_utils::{escape, escaped};
use crate::roles::{render_role_text, role_html};
use crate::search::{
    find_char_from, find_char_in, find_from, find_text_from, idx, last_is, lemma_find_char_from,
    lemma_find_from, rfind_char, rfind_char_in,
};
use crate::text::{
    chars_of, copy_range, extend, is_space, is_whitespace, lemma_concat_assoc, push_str, string_of,
    trim, trimmed,
};

verus! {

/// The punctuation, besides backslash, star and backquote, that a backslash
/// turns into itself.
pub open spec fn escapable(c: char) -> bool {
    c == '_' || c == '{' || c == '}' || c == '[' || c == ']' || c == '(' || c == ')' || c == '#'
        || c == '+' || c == '-' || c == '.' || c == '!' || c == '~' || c == '|'
}

fn is_rst_escapable(c: char) -> (b: bool)
    ensures
        b == escapable(c),
{
    c == '_' || c == '{' || c == '}' || c == '[' || c == ']' || c == '(' || c == ')' || c == '#'
        || c == '+' || c == '-' || c == '.' || c == '!' || c == '~' || c == '|'
}

/// Whether emphasis may open at `pos`: at the start of the text, after white
/// space or after an opening bracket, quote, slash or hyphen.
pub open spec fn inline_start(s: Seq<char>, pos: int) -> bool {
    pos <= 0 || pos > s.len() || {
        let p = s[pos - 1];
        is_space(p) || p == '(' || p == '[' || p == '{' || p == '<' || p == '/' || p == '\''
            || p == '"' || p == '-'
    }
}

fn is_inline_start(pos: usize, v: &Vec<char>) -> (b: bool)
    ensures
        b == inline_start(v@, pos as int),
{
    if pos == 0 || pos > v.len() {
        return true;
    }
    let p = v[pos - 1];
    is_whitespace(p) || p == '(' || p == '[' || p == '{' || p == '<' || p == '/' || p == '\''
        || p == '"' || p == '-'
}

/// The first index at or after `i` of two stars that no third star follows.
pub open spec fn strong_end_from(s: Seq<char>, i: int) -> Option<int>
    decreases s.len() - i,
{
    if i < 0 || i + 1 >= s.len() {
        None
    } else if s[i] == '*' && s[i + 1] == '*' && (i + 2 >= s.len() || s[i + 2] != '*') {
        Some(i)
    } else {
        strong_end_from(s, i + 1)
    }
}

/// The first index at or after `i` of a star that no second star follows.
pub open spec fn em_end_from(s: Seq<char>, i: int) -> Option<int>
    decreases s.len() - i,
{
    if i < 0 || i >= s.len() {
        None
    } else if s[i] == '*' && (i + 1 >= s.len() || s[i + 1] != '*') {
        Some(i)
    } else {
        em_end_from(s, i + 1)
    }
}

/// The end of strong text lies at or after the start of its search, with room for
/// two stars.
pub proof fn lemma_strong_end_from(s: Seq<char>, i: int)
    requires
        0 <= i,
    ensures
        strong_end_from(s, i) matches Some(k) ==> i <= k && k + 2 <= s.len(),
    decreases s.len() - i,
{
    if i + 1 < s.len() && !(s[i] == '*' && s[i + 1] == '*' && (i + 2 >= s.len() || s[i + 2]
        != '*')) {
        lemma_strong_end_from(s, i + 1);
    }
}

/// The end of emphasis lies at or after the start of its search, within the text.
pub proof fn lemma_em_end_from(s: Seq<char>, i: int)
    requires
        0 <= i,
    ensures
        em_end_from(s, i) matches Some(k) ==> i <= k && k + 1 <= s.len(),
    decreases s.len() - i,
{
    if i < s.len() && !(s[i] == '*' && (i + 1 >= s.len() || s[i + 1] != '*')) {
        lemma_em_end_from(s, i + 1);
    }
}

fn find_double_star_end(v: &Vec<char>, start: usize) -> (r: Option<usize>)
    ensures
        idx(r) == strong_end_from(v@, start as int),
        r matches Some(k) ==> start <= k && k + 2 <= v.len(),
{
    let mut i: usize = start;
    while i < v.len() && v.len() - i > 1
        invariant
            start <= i,
            strong_end_from(v@, i as int) == strong_end_from(v@, start as int),
        decreases v.len() - i,
    {
        if v[i] == '*' && v[i + 1] == '*' && (v.len() - i <= 2 || v[i + 2] != '*') {
            return Some(i);
        }
        i += 1;
    }
    None
}

fn find_single_star_end(v: &Vec<char>, start: usize) -> (r: Option<usize>)
    ensures
        idx(r) == em_end_from(v@, start as int),
        r matches Some(k) ==> start <= k && k + 1 <= v.len(),
{
    let mut i: usize = start;
    while i < v.len()
        invariant
            start <= i,
            em_end_from(v@, i as int) == em_end_from(v@, start as int),
        decreases v.len() - i,
    {
        if v[i] == '*' && (v.len() - i <= 1 || v[i + 1] != '*') {
            return Some(i);
        }
        i += 1;
    }
    None
}

/// The end of a role name that begins at `i`: the first colon, backquote or
/// white space, or the end of the text.
pub open spec fn role_name_end(s: Seq<char>, i: int) -> int
    decreases s.len() - i,
{
    if 0 <= i < s.len() && s[i] != ':' && s[i] != '`' && !is_space(s[i]) {
        role_name_end(s, i + 1)
    } else {
        i
    }
}

/// The end of a role name lies at or after its start, within the text.
pub proof fn lemma_role_name_end(s: Seq<char>, i: int)
    requires
        0 <= i <= s.len(),
    ensures
        i <= role_name_end(s, i) <= s.len(),
    decreases s.len() - i,
{
    if i < s.len() && s[i] != ':' && s[i] != '`' && !is_space(s[i]) {
        lemma_role_name_end(s, i + 1);
    }
}

/// A role at `start`: a colon, a name, a colon, and content in backquotes.
/// The result is the name, the content and the index after the role.
pub open spec fn role_at(s: Seq<char>, start: int) -> Option<(Seq<char>, Seq<char>, int)> {
    if !(0 <= start < s.len() && s[start] == ':') {
        None
    } else {
        let e = role_name_end(s, start + 1);
        if e >= s.len() || s[e] != ':' || e == start + 1 || e + 1 >= s.len() || s[e + 1] != '`' {
            None
        } else {
            match find_char_from(s, '`', e + 2) {
                Some(j) => Some((s.subrange(start + 1, e), s.subrange(e + 2, j), j + 1)),
                None => None,
            }
        }
    }
}

/// Two parsed texts and an index over mathematical values.
pub open spec fn triple_view(r: Option<(Vec<char>, Vec<char>, usize)>) -> Option<
    (Seq<char>, Seq<char>, int),
> {
    match r {
        Some((a, b, n)) => Some((a@, b@, n as int)),
        None => None,
    }
}

fn try_parse_role(v: &Vec<char>, start: usize) -> (r: Option<(Vec<char>, Vec<char>, usize)>)
    ensures
        triple_view(r) == role_at(v@, start as int),
        r matches Some((_, _, n)) ==> start < n <= v.len(),
{
    if start >= v.len() || v[start] != ':' {
        return None;
    }
    let mut e: usize = start + 1;
    while e < v.len() && v[e] != ':' && v[e] != '`' && !is_whitespace(v[e])
        invariant
            start < e <= v.len(),
            role_name_end(v@, e as int) == role_name_end(v@, start + 1),
        decreases v.len() - e,
    {
        e += 1;
    }
    if e >= v.len() || v[e] != ':' || e == start + 1 || v.len() - e <= 1 || v[e + 1] != '`' {
        return None;
    }
    match find_char_in(v, '`', e + 2) {
        Some(j) => {
            let name = copy_range(v, start + 1, e);
            let content = copy_range(v, e + 2, j);
            Some((name, content, j + 1))
        },
        None => None,
    }
}

/// A link at `start`: a backquote, text, and a backquote followed by one or
/// two underscores, where the text ends in a target in angle brackets. The
/// result is the shown text, the target and the index after the link.
pub open spec fn link_at(s: Seq<char>, start: int) -> Option<(Seq<char>, Seq<char>, int)> {
    if !(0 <= start < s.len() && s[start] == '`') {
        None
    } else {
        match find_from(s, "`_"@, start + 1) {
            Some(i) => {
                let text = s.subrange(start + 1, i);
                let end = if i + 2 < s.len() && s[i + 2] == '_' {
                    i + 3
                } else {
                    i + 2
                };
                match rfind_char(text, '<') {
                    Some(a) => if last_is(text, '>') {
                        Some(
                            (
                                trimmed(text.subrange(0, a)),
                                text.subrange(a + 1, text.len() - 1),
                                end,
                            ),
                        )
                    } else {
                        None
                    },
                    None => None,
                }
            },
            None => None,
        }
    }
}

fn try_parse_external_link(v: &Vec<char>, start: usize) -> (r: Option<
    (Vec<char>, Vec<char>, usize),
>)
    ensures
        triple_view(r) == link_at(v@, start as int),
        r matches Some((_, _, n)) ==> start < n <= v.len(),
{
    if start >= v.len() || v[start] != '`' {
        return None;
    }
    let mark = chars_of("`_");
    proof {
        reveal_strlit("`_");
    }
    match find_text_from(v, &mark, start + 1) {
        Some(i) => {
            let text = copy_range(v, start + 1, i);
            let end: usize = if v.len() - i > 2 && v[i + 2] == '_' {
                i + 3
            } else {
                i + 2
            };
            match rfind_char_in(&text, '<') {
                Some(a) => {
                    if text.len() > 0 && text[text.len() - 1] == '>' {
                        let front = copy_range(&text, 0, a);
                        let display = trim(&front);
                        let url = copy_range(&text, a + 1, text.len() - 1);
                        Some((display, url, end))
                    } else {
                        None
                    }
                },
                None => None,
            }
        },
        None => None,
    }
}

/// The end of a substitution name that begins at `i`: the first bar or line
/// feed, or the end of the text.
pub open spec fn subst_name_end(s: Seq<char>, i: int) -> int
    decreases s.len() - i,
{
    if 0 <= i < s.len() && s[i] != '|' && s[i] != '\n' {
        subst_name_end(s, i + 1)
    } else {
        i
    }
}

/// A substitution reference at `start`: a name between two bars on one line.
/// The result is the name and the index after the reference.
pub open spec fn subst_at(s: Seq<char>, start: int) -> Option<(Seq<char>, int)> {
    if !(0 <= start < s.len() && s[start] == '|') {
        None
    } else {
        let e = subst_name_end(s, start + 1);
        if e >= s.len() || s[e] != '|' || e == start + 1 {
            None
        } else {
            Some((s.subrange(start + 1, e), e + 1))
        }
    }
}

/// A parsed text and an index over mathematical values.
pub open spec fn name_view(r: Option<(Vec<char>, usize)>) -> Option<(Seq<char>, int)> {
    match r {
        Some((a, n)) => Some((a@, n as int)),
        None => None,
    }
}

fn try_parse_substitution_ref(v: &Vec<char>, start: usize) -> (r: Option<(Vec<char>, usize)>)
    ensures
        name_view(r) == subst_at(v@, start as int),
        r matches Some((_, n)) ==> start < n <= v.len(),
{
    if start >= v.len() || v[start] != '|' {
        return None;
    }
    let mut e: usize = start + 1;
    while e < v.len() && v[e] != '|' && v[e] != '\n'
        invariant
            start < e <= v.len(),
            subst_name_end(v@, e as int) == subst_name_end(v@, start + 1),
        decreases v.len() - e,
    {
        e += 1;
    }
    if e >= v.len() || v[e] != '|' || e == start + 1 {
        return None;
    }
    let name = copy_range(v, start + 1, e);
    Some((name, e + 1))
}

/// What a backslash at `i` and the value after it stand for, and the index
/// after them.
pub open spec fn escape_span(s: Seq<char>, i: int) -> (Seq<char>, int) {
    let n = s[i + 1];
    if n == ' ' {
        (Seq::empty(), i + 2)
    } else if n == '\\' || n == '*' || n == '`' || escapable(n) {
        (seq![n], i + 2)
    } else if n == '<' {
        ("&lt;"@, i + 2)
    } else if n == '>' {
        ("&gt;"@, i + 2)
    } else {
        (seq!['\\'], i + 1)
    }
}

/// What one value of plain text stands for.
pub open spec fn plain_one(c: char) -> Seq<char> {
    if c == '&' {
        "&amp;"@
    } else if c == '<' {
        "&lt;"@
    } else if c == '>' {
        "&gt;"@
    } else {
        seq![c]
    }
}

/// Where literal code that opens at `i` ends: at the next two backquotes.
pub open spec fn code_span_end(s: Seq<char>, i: int) -> Option<int> {
    if 0 <= i && i + 1 < s.len() && s[i] == '`' && s[i + 1] == '`' {
        find_from(s, "``"@, i + 2)
    } else {
        None
    }
}

/// Where strong emphasis that opens at `i` ends: at the next three stars.
pub open spec fn strong_em_span_end(s: Seq<char>, i: int) -> Option<int> {
    if 0 <= i && i + 2 < s.len() && s[i] == '*' && s[i + 1] == '*' && s[i + 2] == '*'
        && inline_start(s, i) {
        find_from(s, "***"@, i + 3)
    } else {
        None
    }
}

/// Where strong text that opens at `i` ends.
pub open spec fn strong_span_end(s: Seq<char>, i: int) -> Option<int> {
    if 0 <= i && i + 1 < s.len() && s[i] == '*' && s[i + 1] == '*' && inline_start(s, i) {
        strong_end_from(s, i + 2)
    } else {
        None
    }
}

/// Where emphasis that opens at `i` ends. Emphasis opens at a star that no
/// second star follows.
pub open spec fn em_span_end(s: Seq<char>, i: int) -> Option<int> {
    if 0 <= i < s.len() && s[i] == '*' && !(i + 1 < s.len() && s[i + 1] == '*') && inline_start(
        s,
        i,
    ) {
        em_end_from(s, i + 1)
    } else {
        None
    }
}

/// The HTML of the span that begins at `i`, and the index after that span.
/// The kinds of span are tried in a fixed order: backslash escape, literal
/// code, role, strong emphasis, strong, emphasis, link, substitution
/// reference, one plain value. A delimiter that is never closed is plain.
pub open spec fn inline_span(s: Seq<char>, i: int) -> (Seq<char>, int)
    decreases s.len(), 0int, 0int,
    via inline_span_decreases
{
    if s[i] == '\\' && i + 1 < s.len() {
        escape_span(s, i)
    } else if code_span_end(s, i) is Some {
        let end = code_span_end(s, i).unwrap();
        ("<code>"@ + escaped(s.subrange(i + 2, end)) + "</code>"@, end + 2)
    } else if role_at(s, i) is Some {
        let (name, content, end) = role_at(s, i).unwrap();
        (role_html(name, content), end)
    } else if strong_em_span_end(s, i) is Some {
        let end = strong_em_span_end(s, i).unwrap();
        ("<strong><em>"@ + escaped(s.subrange(i + 3, end)) + "</em></strong>"@, end + 3)
    } else if strong_span_end(s, i) is Some {
        let end = strong_span_end(s, i).unwrap();
        ("<strong>"@ + inline_from(s.subrange(i + 2, end), 0) + "</strong>"@, end + 2)
    } else if em_span_end(s, i) is Some {
        let end = em_span_end(s, i).unwrap();
        ("<em>"@ + inline_from(s.subrange(i + 1, end), 0) + "</em>"@, end + 1)
    } else if link_at(s, i) is Some {
        let (text, url, end) = link_at(s, i).unwrap();
        ("<a href=\""@ + escaped(url) + "\">"@ + escaped(text) + "</a>"@, end)
    } else if subst_at(s, i) is Some {
        let (name, end) = subst_at(s, i).unwrap();
        ("|"@ + name + "|"@, end)
    } else {
        (plain_one(s[i]), i + 1)
    }
}

#[via_fn]
proof fn inline_span_decreases(s: Seq<char>, i: int) {
    if strong_span_end(s, i) is Some {
        lemma_strong_end_from(s, i + 2);
    }
    if em_span_end(s, i) is Some {
        lemma_em_end_from(s, i + 1);
    }
}

/// The HTML of `s` from index `i` on. No span is empty, so the scan always
/// moves on.
pub open spec fn inline_from(s: Seq<char>, i: int) -> Seq<char>
    decreases s.len(), 1int, s.len() - i,
{
    if i < 0 || i >= s.len() {
        Seq::empty()
    } else {
        let (piece, next) = inline_span(s, i);
        if i < next <= s.len() {
            piece + inline_from(s, next)
        } else {
            piece
        }
    }
}

/// The HTML of a run of text with inline markup.
pub open spec fn inline_html(s: Seq<char>) -> Seq<char> {
    inline_from(s, 0)
}

/// Every span ends after its start and within the text.
pub proof fn lemma_span_advances(s: Seq<char>, i: int)
    requires
        0 <= i < s.len(),
    ensures
        i < inline_span(s, i).1 <= s.len(),
{
    reveal_strlit("``");
    reveal_strlit("***");
    reveal_strlit("`_");
    lemma_find_from(s, "``"@, i + 2);
    lemma_find_from(s, "***"@, i + 3);
    lemma_find_from(s, "`_"@, i + 1);
    lemma_strong_end_from(s, i + 2);
    lemma_em_end_from(s, i + 1);
    lemma_role_name_end(s, i + 1);
    if i + 1 <= s.len() {
        let e = role_name_end(s, i + 1);
        lemma_find_char_from(s, '`', if e + 2 <= s.len() { e + 2 } else { 0 });
    }
    lemma_subst_name_end(s, i + 1);
}

/// The end of a substitution name lies at or after its start, within the text.
pub proof fn lemma_subst_name_end(s: Seq<char>, i: int)
    requires
        0 <= i <= s.len(),
    ensures
        i <= subst_name_end(s, i) <= s.len(),
    decreases s.len() - i,
{
    if i < s.len() && s[i] != '|' && s[i] != '\n' {
        lemma_subst_name_end(s, i + 1);
    }
}

fn wrap(open: &str, body: &Vec<char>, close: &str) -> (r: Vec<char>)
    ensures
        r@ == open@ + body@ + close@,
{
    let mut out = chars_of(open);
    extend(&mut out, body);
    push_str(&mut out, close);
    out
}

fn escape_step(v: &Vec<char>, i: usize) -> (r: (Vec<char>, usize))
    requires
        i + 1 < v.len(),
    ensures
        (r.0@, r.1 as int) == escape_span(v@, i as int),
        i < r.1 <= v.len(),
{
    let n = v[i + 1];
    let mut piece: Vec<char> = Vec::new();
    if n == ' ' {
        (piece, i + 2)
    } else if n == '\\' || n == '*' || n == '`' || is_rst_escapable(n) {
        piece.push(n);
        assert(piece@ =~= seq![n]);
        (piece, i + 2)
    } else if n == '<' {
        (chars_of("&lt;"), i + 2)
    } else if n == '>' {
        (chars_of("&gt;"), i + 2)
    } else {
        piece.push('\\');
        assert(piece@ =~= seq!['\\']);
        (piece, i + 1)
    }
}

fn plain_step(c: char) -> (r: Vec<char>)
    ensures
        r@ == plain_one(c),
{
    if c == '&' {
        chars_of("&amp;")
    } else if c == '<' {
        chars_of("&lt;")
    } else if c == '>' {
        chars_of("&gt;")
    } else {
        let mut piece: Vec<char> = Vec::new();
        piece.push(c);
        assert(piece@ =~= seq![c]);
        piece
    }
}

fn code_end(v: &Vec<char>, i: usize) -> (r: Option<usize>)
    requires
        i < v.len(),
    ensures
        idx(r) == code_span_end(v@, i as int),
        r matches Some(k) ==> i + 2 <= k && k + 2 <= v.len(),
{
    if v.len() - i > 1 && v[i] == '`' && v[i + 1] == '`' {
        let mark = chars_of("``");
        proof {
            reveal_strlit("``");
        }
        find_text_from(v, &mark, i + 2)
    } else {
        None
    }
}

fn strong_em_end(v: &Vec<char>, i: usize) -> (r: Option<usize>)
    requires
        i < v.len(),
    ensures
        idx(r) == strong_em_span_end(v@, i as int),
        r matches Some(k) ==> i + 3 <= k && k + 3 <= v.len(),
{
    if v.len() - i > 2 && v[i] == '*' && v[i + 1] == '*' && v[i + 2] == '*' && is_inline_start(
        i,
        v,
    ) {
        let mark = chars_of("***");
        proof {
            reveal_strlit("***");
        }
        find_text_from(v, &mark, i + 3)
    } else {
        None
    }
}

fn strong_end(v: &Vec<char>, i: usize) -> (r: Option<usize>)
    requires
        i < v.len(),
    ensures
        idx(r) == strong_span_end(v@, i as int),
        r matches Some(k) ==> i + 2 <= k && k + 2 <= v.len(),
{
    if v.len() - i > 1 && v[i] == '*' && v[i + 1] == '*' && is_inline_start(i, v) {
        find_double_star_end(v, i + 2)
    } else {
        None
    }
}

fn em_end(v: &Vec<char>, i: usize) -> (r: Option<usize>)
    requires
        i < v.len(),
    ensures
        idx(r) == em_span_end(v@, i as int),
        r matches Some(k) ==> i + 1 <= k && k + 1 <= v.len(),
{
    if v[i] == '*' && !(v.len() - i > 1 && v[i + 1] == '*') && is_inline_start(i, v) {
        find_single_star_end(v, i + 1)
    } else {
        None
    }
}

fn inline_step(v: &Vec<char>, i: usize) -> (r: (Vec<char>, usize))
    requires
        i < v.len(),
    ensures
        (r.0@, r.1 as int) == inline_span(v@, i as int),
        i < r.1 <= v.len(),
    decreases v.len(), 0int,
{
    if v[i] == '\\' && v.len() - i > 1 {
        return escape_step(v, i);
    }
    if let Some(end) = code_end(v, i) {
        let inner = copy_range(v, i + 2, end);
        let e = escape(&inner);
        return (wrap("<code>", &e, "</code>"), end + 2);
    }
    if let Some((name, content, end)) = try_parse_role(v, i) {
        return (render_role_text(&name, &content), end);
    }
    if let Some(end) = strong_em_end(v, i) {
        let inner = copy_range(v, i + 3, end);
        let e = escape(&inner);
        return (wrap("<strong><em>", &e, "</em></strong>"), end + 3);
    }
    if let Some(end) = strong_end(v, i) {
        let inner = copy_range(v, i + 2, end);
        let e = process_inline_text(&inner);
        return (wrap("<strong>", &e, "</strong>"), end + 2);
    }
    if let Some(end) = em_end(v, i) {
        let inner = copy_range(v, i + 1, end);
        let e = process_inline_text(&inner);
        return (wrap("<em>", &e, "</em>"), end + 1);
    }
    if let Some((text, url, end)) = try_parse_external_link(v, i) {
        let mut out = chars_of("<a href=\"");
        let u = escape(&url);
        extend(&mut out, &u);
        push_str(&mut out, "\">");
        let t = escape(&text);
        extend(&mut out, &t);
        push_str(&mut out, "</a>");
        return (out, end);
    }
    if let Some((name, end)) = try_parse_substitution_ref(v, i) {
        return (wrap("|", &name, "|"), end);
    }
    (plain_step(v[i]), i + 1)
}

/// Renders the inline markup of a run of text as HTML.
pub fn process_inline_text(v: &Vec<char>) -> (r: Vec<char>)
    ensures
        r@ == inline_html(v@),
    decreases v.len(), 1int,
{
    let mut out: Vec<char> = Vec::new();
    let mut i: usize = 0;
    while i < v.len()
        invariant
            i <= v.len(),
            out@ + inline_from(v@, i as int) == inline_html(v@),
        decreases v.len() - i,
    {
        let ghost before = out@;
        let (piece, next) = inline_step(v, i);
        extend(&mut out, &piece);
        proof {
            lemma_concat_assoc(before, piece@, inline_from(v@, next as int));
        }
        i = next;
    }
    assert(out@ + Seq::<char>::empty() =~= out@);
    out
}

/// Renders the inline markup of a run of text as HTML.
pub fn process_inline(text: &str) -> (r: String)
    ensures
        r@ == inline_html(text@),
{
    let v = chars_of(text);
    let e = process_inline_text(&v);
    string_of(&e)
}

} // verus!
