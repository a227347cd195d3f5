//! Leaf utilities: entity escaping, backslash unescaping, slugs, dedenting.

use vstd::prelude::*;
use crate::chars::{alphanumeric, is_alphanumeric, lowercase, to_lowercase};
use crate::lines::{join_lines, joined, lines_of, lines_view, push_line, split_lines};
use crate::search::last_is;
use crate::text::{
    blank, chars_of, copy_range, copy_text, indent, indent_of, is_blank, lemma_concat_assoc,
    push_str, string_of, trim_end_char, without_trailing,
};

verus! {

/// What stands for one scalar value in HTML text and attribute values.
pub open spec fn escape_one(c: char) -> Seq<char> {
    if c == '&' {
        "&amp;"@
    } else if c == '<' {
        "&lt;"@
    } else if c == '>' {
        "&gt;"@
    } else if c == '"' {
        "&quot;"@
    } else {
        seq![c]
    }
}

/// The first `n` values of `s`, escaped.
pub open spec fn escaped_upto(s: Seq<char>, n: int) -> Seq<char>
    decreases n,
{
    if n <= 0 {
        Seq::empty()
    } else {
        escaped_upto(s, n - 1) + escape_one(s[n - 1])
    }
}

/// `s` with `&`, `<`, `>` and `"` replaced by their entities.
pub open spec fn escaped(s: Seq<char>) -> Seq<char> {
    escaped_upto(s, s.len() as int)
}

/// Appends what stands for `c` in HTML.
pub fn push_escaped(out: &mut Vec<char>, c: char)
    ensures
        final(out)@ == old(out)@ + escape_one(c),
{
    if c == '&' {
        push_str(out, "&amp;");
    } else if c == '<' {
        push_str(out, "&lt;");
    } else if c == '>' {
        push_str(out, "&gt;");
    } else if c == '"' {
        push_str(out, "&quot;");
    } else {
        out.push(c);
        assert(out@ =~= old(out)@ + seq![c]);
    }
}

/// Escapes `&`, `<`, `>` and `"` for HTML.
pub fn escape(v: &Vec<char>) -> (r: Vec<char>)
    ensures
        r@ == escaped(v@),
{
    let mut out: Vec<char> = Vec::new();
    let mut i: usize = 0;
    while i < v.len()
        invariant
            i <= v.len(),
            out@ == escaped_upto(v@, i as int),
        decreases v.len() - i,
    {
        push_escaped(&mut out, v[i]);
        i += 1;
    }
    out
}

/// Escapes `&`, `<`, `>` and `"` for HTML.
pub fn escape_html(s: &str) -> (r: String)
    ensures
        r@ == escaped(s@),
{
    let v = chars_of(s);
    let e = escape(&v);
    string_of(&e)
}

/// The punctuation that a backslash turns into itself.
pub open spec fn unescapes_to_itself(c: char) -> bool {
    c == '\\' || c == '*' || c == '`' || c == '_' || c == '{' || c == '}' || c == '[' || c == ']'
        || c == '(' || c == ')' || c == '#' || c == '+' || c == '-' || c == '.' || c == '!' || c
        == '~' || c == '|'
}

/// `s` from index `i` on with its backslash escapes read: backslash and
/// space vanish, escaped punctuation stands for itself, escaped angle
/// brackets become entities, any other backslash stays.
pub open spec fn unescaped_from(s: Seq<char>, i: int) -> Seq<char>
    decreases s.len() - i,
{
    if i < 0 || i >= s.len() {
        Seq::empty()
    } else if s[i] == '\\' && i + 1 < s.len() {
        let n = s[i + 1];
        if n == ' ' {
            unescaped_from(s, i + 2)
        } else if unescapes_to_itself(n) {
            seq![n] + unescaped_from(s, i + 2)
        } else if n == '<' {
            "&lt;"@ + unescaped_from(s, i + 2)
        } else if n == '>' {
            "&gt;"@ + unescaped_from(s, i + 2)
        } else {
            seq!['\\'] + unescaped_from(s, i + 1)
        }
    } else {
        seq![s[i]] + unescaped_from(s, i + 1)
    }
}

/// `s` with its backslash escapes read.
pub open spec fn unescaped(s: Seq<char>) -> Seq<char> {
    unescaped_from(s, 0)
}

fn is_self_escape(c: char) -> (b: bool)
    ensures
        b == unescapes_to_itself(c),
{
    c == '\\' || c == '*' || c == '`' || c == '_' || c == '{' || c == '}' || c == '[' || c == ']'
        || c == '(' || c == ')' || c == '#' || c == '+' || c == '-' || c == '.' || c == '!' || c
        == '~' || c == '|'
}

/// Reads the backslash escapes of a text.
pub fn unescape(v: &Vec<char>) -> (r: Vec<char>)
    ensures
        r@ == unescaped(v@),
{
    let mut out: Vec<char> = Vec::new();
    let mut i: usize = 0;
    while i < v.len()
        invariant
            i <= v.len(),
            out@ + unescaped_from(v@, i as int) == unescaped(v@),
        decreases v.len() - i,
    {
        let ghost before = out@;
        let ghost j = i as int;
        if v[i] == '\\' && v.len() - i > 1 {
            let n = v[i + 1];
            if n == ' ' {
                i += 2;
            } else if is_self_escape(n) {
                out.push(n);
                i += 2;
                assert(out@ == before + seq![n]);
                proof {
                    lemma_concat_assoc(before, seq![n], unescaped_from(v@, j + 2));
                }
            } else if n == '<' {
                push_str(&mut out, "&lt;");
                i += 2;
                proof {
                    lemma_concat_assoc(before, "&lt;"@, unescaped_from(v@, j + 2));
                }
            } else if n == '>' {
                push_str(&mut out, "&gt;");
                i += 2;
                proof {
                    lemma_concat_assoc(before, "&gt;"@, unescaped_from(v@, j + 2));
                }
            } else {
                out.push('\\');
                i += 1;
                assert(out@ == before + seq!['\\']);
                proof {
                    lemma_concat_assoc(before, seq!['\\'], unescaped_from(v@, j + 1));
                }
            }
        } else {
            out.push(v[i]);
            i += 1;
            assert(out@ == before + seq![v@[j]]);
            proof {
                lemma_concat_assoc(before, seq![v@[j]], unescaped_from(v@, j + 1));
            }
        }
    }
    assert(out@ + Seq::<char>::empty() =~= out@);
    out
}

/// Reads the backslash escapes of reStructuredText.
pub fn process_rst_escapes(s: &str) -> (r: String)
    ensures
        r@ == unescaped(s@),
{
    let v = chars_of(s);
    let e = unescape(&v);
    string_of(&e)
}

/// The values that part the words of a slug.
pub open spec fn slug_separator(c: char) -> bool {
    c == ' ' || c == '-' || c == '_'
}

/// The slug of the first `n` values of a lower-case text, before the hyphen
/// at its end is dropped: letters and digits stay, a run of spaces, hyphens
/// and underscores inside the slug becomes one hyphen, the rest is dropped.
pub open spec fn slug_upto(s: Seq<char>, n: int) -> Seq<char>
    decreases n,
{
    if n <= 0 {
        Seq::empty()
    } else {
        let before = slug_upto(s, n - 1);
        let c = s[n - 1];
        if alphanumeric(c) {
            before.push(c)
        } else if slug_separator(c) && before.len() > 0 && !last_is(before, '-') {
            before.push('-')
        } else {
            before
        }
    }
}

/// The slug of a lower-case text.
pub open spec fn slug_of_lowercase(s: Seq<char>) -> Seq<char> {
    without_trailing(slug_upto(s, s.len() as int), '-')
}

/// The slug of a text: lower-case letters and digits joined by single
/// hyphens, with no hyphen at either end.
pub open spec fn slug(s: Seq<char>) -> Seq<char> {
    slug_of_lowercase(lowercase(s))
}

/// The slug of a text that is already in lower case.
pub fn slug_of(lower: &Vec<char>) -> (r: Vec<char>)
    ensures
        r@ == slug_of_lowercase(lower@),
{
    let mut out: Vec<char> = Vec::new();
    let mut i: usize = 0;
    while i < lower.len()
        invariant
            i <= lower.len(),
            out@ == slug_upto(lower@, i as int),
        decreases lower.len() - i,
    {
        let c = lower[i];
        if is_alphanumeric(c) {
            out.push(c);
        } else if (c == ' ' || c == '-' || c == '_') && out.len() > 0 && out[out.len() - 1]
            != '-' {
            out.push('-');
        }
        i += 1;
    }
    trim_end_char(&out, '-')
}

/// Makes an identifier for links out of a title.
pub fn slugify_text(text: &Vec<char>) -> (r: Vec<char>)
    ensures
        r@ == slug(text@),
{
    let lower = to_lowercase(text);
    slug_of(&lower)
}

/// Makes an identifier for links out of a title.
pub fn slugify(text: &str) -> (r: String)
    ensures
        r@ == slug(text@),
{
    let v = chars_of(text);
    let e = slugify_text(&v);
    string_of(&e)
}

/// The least indentation among the lines of `ls[..n]` that are not blank.
pub open spec fn min_indent_upto(ls: Seq<Seq<char>>, n: int) -> Option<int>
    decreases n,
{
    if n <= 0 {
        None
    } else {
        let rest = min_indent_upto(ls, n - 1);
        let l = ls[n - 1];
        if blank(l) {
            rest
        } else if rest is Some && rest.unwrap() <= indent(l) {
            rest
        } else {
            Some(indent(l))
        }
    }
}

/// `l` without its first `m` values, or `l` itself if it is shorter.
pub open spec fn cut_line(l: Seq<char>, m: int) -> Seq<char> {
    if l.len() >= m {
        l.subrange(m, l.len() as int)
    } else {
        l
    }
}

/// `s` with the indentation that all its non-blank lines share removed from
/// each line. A text whose lines share none is returned as it is.
pub open spec fn dedented(s: Seq<char>) -> Seq<char> {
    let ls = lines_of(s);
    let m = min_indent_upto(ls, ls.len() as int);
    if ls.len() == 0 {
        Seq::empty()
    } else if m is Some && m.unwrap() > 0 {
        joined(Seq::new(ls.len(), |i: int| cut_line(ls[i], m.unwrap())), "\n"@)
    } else {
        s
    }
}

/// Removes the indentation that the lines of a block share.
pub fn dedent_text(v: &Vec<char>) -> (r: Vec<char>)
    ensures
        r@ == dedented(v@),
{
    let lines = split_lines(v);
    if lines.len() == 0 {
        return Vec::new();
    }
    let ghost ls = lines_view(lines@);
    let mut found: bool = false;
    let mut least: usize = 0;
    let mut k: usize = 0;
    while k < lines.len()
        invariant
            k <= lines.len(),
            ls == lines_view(lines@),
            found == (min_indent_upto(ls, k as int) is Some),
            found ==> least == min_indent_upto(ls, k as int).unwrap(),
        decreases lines.len() - k,
    {
        let line = &lines[k];
        assert(ls[k as int] == line@);
        if !is_blank(line) {
            let n = indent_of(line);
            if !found || n < least {
                least = n;
                found = true;
            }
        }
        k += 1;
    }
    if !found || least == 0 {
        return copy_text(v);
    }
    let mut cut: Vec<Vec<char>> = Vec::new();
    let mut k: usize = 0;
    assert(lines_view(cut@) =~= Seq::new(0, |i: int| cut_line(ls[i], least as int)));
    while k < lines.len()
        invariant
            k <= lines.len(),
            ls == lines_view(lines@),
            cut.len() == k,
            lines_view(cut@) == Seq::new(k as nat, |i: int| cut_line(ls[i], least as int)),
        decreases lines.len() - k,
    {
        let line = &lines[k];
        assert(ls[k as int] == line@);
        let piece = if line.len() >= least {
            copy_range(line, least, line.len())
        } else {
            copy_text(line)
        };
        push_line(&mut cut, piece);
        k += 1;
        assert(lines_view(cut@) =~= Seq::new(k as nat, |i: int| cut_line(ls[i], least as int)));
    }
    join_lines(&cut, "\n")
}

/// Removes the indentation that the lines of a block share.
pub fn dedent(text: &str) -> (r: String)
    ensures
        r@ == dedented(text@),
{
    let v = chars_of(text);
    let e = dedent_text(&v);
    string_of(&e)
}

} // verus!
