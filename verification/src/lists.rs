//! Helpers for bullet, enumerated and option lists.

use vstd::prelude::*;
use crate::chars::{
    ascii_alnum, ascii_alpha, ascii_digit, is_ascii_alphabetic, is_ascii_alphanumeric,
    is_ascii_digit, lower_char, to_ascii_lower,
};
use crate::html_utils::{escape, escaped};
use crate::inline::{inline_html, process_inline_text};
use crate::lines::{lines_of, lines_view, split_lines};
use crate::number::{decimal, decimal_of};
use crate::search::{begins_with_char, find, find_char, find_char_in, find_str, first_is, idx};
use crate::text::{
    blank, chars_of, copy_text, extend, is_blank, lemma_concat_assoc, push_str, skip, string_of,
    take, trim, trim_start, trimmed, trimmed_start,
};

verus! {

/// Whether a line, once trimmed, begins like a command-line option: `-x`,
/// `--long` or `/X`, where the value after the marker is an ASCII letter or
/// digit.
pub open spec fn option_line(line: Seq<char>) -> bool {
    let t = trimmed(line);
    t.len() >= 2 && if t[0] == '-' {
        if t[1] == '-' {
            t.len() >= 3 && ascii_alnum(t[2])
        } else {
            ascii_alnum(t[1])
        }
    } else {
        t[0] == '/' && ascii_alnum(t[1])
    }
}

/// Whether a line begins like a command-line option.
pub fn is_option_line_text(line: &Vec<char>) -> (b: bool)
    ensures
        b == option_line(line@),
{
    let t = trim(line);
    if t.len() < 2 {
        return false;
    }
    if t[0] == '-' {
        if t[1] == '-' {
            t.len() >= 3 && is_ascii_alphanumeric(t[2])
        } else {
            is_ascii_alphanumeric(t[1])
        }
    } else {
        t[0] == '/' && is_ascii_alphanumeric(t[1])
    }
}

/// Whether a line begins like a command-line option.
pub fn is_option_line(line: &str) -> (b: bool)
    ensures
        b == option_line(line@),
{
    let v = chars_of(line);
    is_option_line_text(&v)
}

/// Among the first `n` lines, the number of those that are not blank.
pub open spec fn filled_count(ls: Seq<Seq<char>>, n: int) -> int
    decreases n,
{
    if n <= 0 {
        0
    } else {
        filled_count(ls, n - 1) + if blank(ls[n - 1]) {
            0int
        } else {
            1int
        }
    }
}

/// Among the first `n` lines, the number of option lines.
pub open spec fn option_count(ls: Seq<Seq<char>>, n: int) -> int
    decreases n,
{
    if n <= 0 {
        0
    } else {
        option_count(ls, n - 1) + if !blank(ls[n - 1]) && option_line(trimmed(ls[n - 1])) {
            1int
        } else {
            0int
        }
    }
}

/// Whether a block reads as an option list: it has an option line, and at
/// least half of its lines that are not blank are option lines.
pub open spec fn option_list(text: Seq<char>) -> bool {
    let ls = lines_of(text);
    let n = ls.len() as int;
    option_count(ls, n) > 0 && option_count(ls, n) * 2 >= filled_count(ls, n)
}

/// Whether a block reads as an option list.
pub fn is_option_list_text(text: &Vec<char>) -> (b: bool)
    ensures
        b == option_list(text@),
{
    let lines = split_lines(text);
    let ghost ls = lines_view(lines@);
    let mut filled: usize = 0;
    let mut options: usize = 0;
    let mut k: usize = 0;
    while k < lines.len()
        invariant
            k <= lines.len(),
            ls == lines_view(lines@),
            filled == filled_count(ls, k as int),
            options == option_count(ls, k as int),
            options <= filled <= k,
        decreases lines.len() - k,
    {
        assert(ls[k as int] == lines@[k as int]@);
        if !is_blank(&lines[k]) {
            filled += 1;
            let t = trim(&lines[k]);
            if is_option_line_text(&t) {
                options += 1;
            }
        }
        k += 1;
    }
    options > 0 && options >= filled - options
}

/// Whether a block reads as an option list.
pub fn is_option_list(text: &str) -> (b: bool)
    ensures
        b == option_list(text@),
{
    let v = chars_of(text);
    is_option_list_text(&v)
}

/// The first index at or after `i` of a space that another space follows,
/// once a value other than a space has been seen (`found`).
pub open spec fn description_start_from(s: Seq<char>, i: int, found: bool) -> Option<int>
    decreases s.len() - i,
{
    if i < 0 || i >= s.len() {
        None
    } else if s[i] != ' ' {
        description_start_from(s, i + 1, true)
    } else if found && i + 1 < s.len() && s[i + 1] == ' ' {
        Some(i)
    } else {
        description_start_from(s, i + 1, found)
    }
}

fn find_description_start(v: &Vec<char>) -> (r: Option<usize>)
    ensures
        idx(r) == description_start_from(v@, 0, false),
        r matches Some(k) ==> k < v.len(),
{
    let mut i: usize = 0;
    let mut found = false;
    while i < v.len()
        invariant
            i <= v.len(),
            description_start_from(v@, i as int, found) == description_start_from(v@, 0, false),
        decreases v.len() - i,
    {
        if v[i] != ' ' {
            found = true;
        } else if found && v.len() - i > 1 && v[i + 1] == ' ' {
            return Some(i);
        }
        i += 1;
    }
    None
}

/// The option and the description of an option line: they are parted by the
/// first run of two spaces after the option.
pub open spec fn option_parts(line: Seq<char>) -> (Seq<char>, Seq<char>) {
    let t = trimmed(line);
    match description_start_from(t, 0, false) {
        Some(p) => (trimmed(t.subrange(0, p)), trimmed(t.subrange(p, t.len() as int))),
        None => (t, Seq::empty()),
    }
}

/// Parts an option line into the option and its description.
pub fn parse_option_line_text(line: &Vec<char>) -> (r: (Vec<char>, Vec<char>))
    ensures
        (r.0@, r.1@) == option_parts(line@),
{
    let t = trim(line);
    match find_description_start(&t) {
        Some(p) => {
            let a = take(&t, p);
            let b = skip(&t, p);
            (trim(&a), trim(&b))
        },
        None => (t, Vec::new()),
    }
}

/// Parts an option line into the option and its description.
pub fn parse_option_line(line: &str) -> (r: (String, String))
    ensures
        (r.0@, r.1@) == option_parts(line@),
{
    let v = chars_of(line);
    let (a, b) = parse_option_line_text(&v);
    (string_of(&a), string_of(&b))
}

/// The entry of an option list for one option and its description; nothing
/// where there is no option.
pub open spec fn option_entry(opt: Seq<char>, desc: Seq<char>) -> Seq<char> {
    if opt.len() > 0 {
        "<dt><code>"@ + escaped(opt) + "</code></dt>\n<dd>"@ + inline_html(trimmed(desc))
            + "</dd>\n"@
    } else {
        Seq::empty()
    }
}

/// A description with one more line joined to it by a space.
pub open spec fn continued(desc: Seq<char>, t: Seq<char>) -> Seq<char> {
    if desc.len() > 0 {
        desc + " "@ + t
    } else {
        desc + t
    }
}

/// The entries of the lines from `i` on, where `opt` and `desc` are the
/// option being read and what has been read of its description.
pub open spec fn option_entries_from(
    ls: Seq<Seq<char>>,
    i: int,
    opt: Seq<char>,
    desc: Seq<char>,
) -> Seq<char>
    decreases ls.len() - i,
{
    if i < 0 || i >= ls.len() {
        option_entry(opt, desc)
    } else {
        let t = trimmed(ls[i]);
        if t.len() == 0 {
            option_entries_from(ls, i + 1, opt, desc)
        } else if option_line(t) {
            option_entry(opt, desc) + option_entries_from(
                ls,
                i + 1,
                option_parts(t).0,
                option_parts(t).1,
            )
        } else {
            option_entries_from(ls, i + 1, opt, continued(desc, t))
        }
    }
}

/// The attribute that marks an option list with the line it began at.
pub open spec fn data_line_attr(line_num: nat, add_data_line: bool) -> Seq<char> {
    if add_data_line {
        " data-line=\""@ + decimal(line_num) + "\""@
    } else {
        Seq::empty()
    }
}

/// The HTML of an option list.
pub open spec fn option_list_html(text: Seq<char>, line_num: nat, add_data_line: bool) -> Seq<
    char,
> {
    "<dl class=\"option-list\""@ + data_line_attr(line_num, add_data_line) + ">\n"@
        + option_entries_from(lines_of(text), 0, Seq::empty(), Seq::empty()) + "</dl>"@
}

fn push_option_entry(out: &mut Vec<char>, opt: &Vec<char>, desc: &Vec<char>)
    ensures
        final(out)@ == old(out)@ + option_entry(opt@, desc@),
{
    if opt.len() > 0 {
        let mut piece = chars_of("<dt><code>");
        let e = escape(opt);
        extend(&mut piece, &e);
        push_str(&mut piece, "</code></dt>\n<dd>");
        let t = trim(desc);
        let h = process_inline_text(&t);
        extend(&mut piece, &h);
        push_str(&mut piece, "</dd>\n");
        extend(out, &piece);
    } else {
        assert(out@ + Seq::<char>::empty() =~= out@);
    }
}

/// Renders an option list as a definition list.
pub fn convert_option_list_text(text: &Vec<char>, line_num: usize, add_data_line: bool) -> (r:
    Vec<char>)
    ensures
        r@ == option_list_html(text@, line_num as nat, add_data_line),
{
    let mut out = chars_of("<dl class=\"option-list\"");
    if add_data_line {
        let mut attr = chars_of(" data-line=\"");
        let d = decimal_of(line_num as u128);
        extend(&mut attr, &d);
        push_str(&mut attr, "\"");
        extend(&mut out, &attr);
    } else {
        assert(out@ + Seq::<char>::empty() =~= out@);
    }
    push_str(&mut out, ">\n");
    let ghost head = out@;
    let lines = split_lines(text);
    let ghost ls = lines_view(lines@);
    let mut opt: Vec<char> = Vec::new();
    let mut desc: Vec<char> = Vec::new();
    let mut i: usize = 0;
    while i < lines.len()
        invariant
            i <= lines.len(),
            ls == lines_view(lines@),
            out@ + option_entries_from(ls, i as int, opt@, desc@) == head + option_entries_from(
                ls,
                0,
                Seq::empty(),
                Seq::empty(),
            ),
        decreases lines.len() - i,
    {
        assert(ls[i as int] == lines@[i as int]@);
        let t = trim(&lines[i]);
        if t.len() == 0 {
        } else if is_option_line_text(&t) {
            let ghost before = out@;
            push_option_entry(&mut out, &opt, &desc);
            let (a, b) = parse_option_line_text(&t);
            proof {
                lemma_concat_assoc(
                    before,
                    option_entry(opt@, desc@),
                    option_entries_from(ls, i + 1, a@, b@),
                );
            }
            opt = a;
            desc = b;
        } else {
            if desc.len() > 0 {
                push_str(&mut desc, " ");
            }
            extend(&mut desc, &t);
        }
        i += 1;
    }
    push_option_entry(&mut out, &opt, &desc);
    push_str(&mut out, "</dl>");
    out
}

/// Renders an option list as a definition list.
pub fn convert_option_list(text: &str, line_num: usize, add_data_line: bool) -> (r: String)
    ensures
        r@ == option_list_html(text@, line_num as nat, add_data_line),
{
    let v = chars_of(text);
    let e = convert_option_list_text(&v, line_num, add_data_line);
    string_of(&e)
}

/// The values that mark the items of a bullet list.
pub open spec fn bullet_char(c: char) -> bool {
    c == '-' || c == '*' || c == '+'
}

/// Whether `t` begins with a bullet and a space.
pub open spec fn bullet_start(t: Seq<char>) -> bool {
    t.len() >= 2 && bullet_char(t[0]) && t[1] == ' '
}

/// Whether `t` begins with a bullet and a space.
pub fn is_bullet_start(t: &Vec<char>) -> (b: bool)
    ensures
        b == bullet_start(t@),
{
    t.len() >= 2 && (t[0] == '-' || t[0] == '*' || t[0] == '+') && t[1] == ' '
}

/// A line without the bullet that it begins with.
pub open spec fn without_bullet(line: Seq<char>) -> Seq<char> {
    let t = trimmed_start(line);
    if bullet_start(t) {
        t.subrange(2, t.len() as int)
    } else if t.len() > 0 && bullet_char(t[0]) {
        trimmed_start(t.subrange(1, t.len() as int))
    } else {
        line
    }
}

/// Removes the bullet that a line begins with.
pub fn strip_bullet_marker_text(line: &Vec<char>) -> (r: Vec<char>)
    ensures
        r@ == without_bullet(line@),
{
    let t = trim_start(line);
    if is_bullet_start(&t) {
        skip(&t, 2)
    } else if t.len() > 0 && (t[0] == '-' || t[0] == '*' || t[0] == '+') {
        let rest = skip(&t, 1);
        trim_start(&rest)
    } else {
        copy_text(line)
    }
}

/// Removes the bullet that a line begins with.
pub fn strip_bullet_marker(line: &str) -> (r: String)
    ensures
        r@ == without_bullet(line@),
{
    let v = chars_of(line);
    let e = strip_bullet_marker_text(&v);
    string_of(&e)
}

/// The letters of Roman numerals, in either case.
pub open spec fn roman_letter(c: char) -> bool {
    let l = lower_char(c);
    l == 'i' || l == 'v' || l == 'x' || l == 'l' || l == 'c' || l == 'd' || l == 'm'
}

/// Whether every value of `s` is an ASCII digit.
pub open spec fn all_ascii_digits(s: Seq<char>) -> bool {
    forall|i: int| 0 <= i < s.len() ==> ascii_digit(#[trigger] s[i])
}

/// Whether every value of `s` is a letter of Roman numerals.
pub open spec fn all_roman(s: Seq<char>) -> bool {
    forall|i: int| 0 <= i < s.len() ==> roman_letter(#[trigger] s[i])
}

/// Whether `s` can number a list item: `#`, digits, one ASCII letter, or
/// letters of Roman numerals in either case.
pub open spec fn valid_enumerator(s: Seq<char>) -> bool {
    s.len() > 0 && (s == seq!['#'] || all_ascii_digits(s) || (s.len() == 1 && ascii_alpha(s[0]))
        || all_roman(s))
}

/// Whether `v` can number a list item.
pub fn is_valid_enumerator(v: &Vec<char>) -> (b: bool)
    ensures
        b == valid_enumerator(v@),
{
    if v.len() == 0 {
        return false;
    }
    if v.len() == 1 && v[0] == '#' {
        assert(v@ =~= seq!['#']);
        return true;
    }
    assert(v@ != seq!['#']) by {
        if v@ == seq!['#'] {
            assert(v@.len() == 1 && v@[0] == '#');
        }
    }
    if v.len() == 1 && is_ascii_alphabetic(v[0]) {
        return true;
    }
    let mut digits = true;
    let mut roman = true;
    let mut i: usize = 0;
    while i < v.len()
        invariant
            i <= v.len(),
            digits == (forall|j: int| 0 <= j < i ==> ascii_digit(#[trigger] v@[j])),
            roman == (forall|j: int| 0 <= j < i ==> roman_letter(#[trigger] v@[j])),
        decreases v.len() - i,
    {
        let c = v[i];
        if !is_ascii_digit(c) {
            digits = false;
        }
        let l = to_ascii_lower(c);
        if !(l == 'i' || l == 'v' || l == 'x' || l == 'l' || l == 'c' || l == 'd' || l == 'm') {
            roman = false;
        }
        i += 1;
    }
    digits || roman
}

/// A line without the enumerator that it begins with: `(x)`, `x.` or `x)`.
pub open spec fn without_enumerator(line: Seq<char>) -> Seq<char> {
    let t = trimmed_start(line);
    let close = find_char(t, ')');
    let dot = find(t, ". "@);
    let paren = find(t, ") "@);
    if first_is(t, '(') && close is Some && valid_enumerator(t.subrange(1, close.unwrap())) {
        trimmed_start(t.subrange(close.unwrap() + 1, t.len() as int))
    } else if dot is Some && valid_enumerator(t.subrange(0, dot.unwrap())) {
        t.subrange(dot.unwrap() + 2, t.len() as int)
    } else if paren is Some && valid_enumerator(t.subrange(0, paren.unwrap())) {
        t.subrange(paren.unwrap() + 2, t.len() as int)
    } else {
        line
    }
}

/// Removes the enumerator that a line begins with.
pub fn strip_enumerated_marker_text(line: &Vec<char>) -> (r: Vec<char>)
    ensures
        r@ == without_enumerator(line@),
{
    let t = trim_start(line);
    if begins_with_char(&t, '(') {
        if let Some(close) = find_char_in(&t, ')', 0) {
            let marker = crate::text::copy_range(&t, 1, close);
            if is_valid_enumerator(&marker) {
                let rest = skip(&t, close + 1);
                return trim_start(&rest);
            }
        }
    }
    proof {
        reveal_strlit(". ");
        reveal_strlit(") ");
    }
    if let Some(d) = find_str(&t, ". ") {
        let marker = take(&t, d);
        if is_valid_enumerator(&marker) {
            return skip(&t, d + 2);
        }
    }
    if let Some(p) = find_str(&t, ") ") {
        let marker = take(&t, p);
        if is_valid_enumerator(&marker) {
            return skip(&t, p + 2);
        }
    }
    copy_text(line)
}

/// Removes the enumerator that a line begins with.
pub fn strip_enumerated_marker(line: &str) -> (r: String)
    ensures
        r@ == without_enumerator(line@),
{
    let v = chars_of(line);
    let e = strip_enumerated_marker_text(&v);
    string_of(&e)
}

} // verus!
