//! Finding where a block ends, and gathering its text.

use vstd::prelude::*;
use crate::html_utils::{dedent_text, dedented};
use crate::inline::{inline_html, process_inline_text};
use crate::lines::{join_between, join_lines, join_range, joined, lines_view, push_line};
use crate::number::{decimal, decimal_of};
use crate::options::Options;
use crate::parser::{
    adornment_run, colon_name, colon_parts, colon_value, enumerated, is_section_adornment,
    is_enumerated_list_item, is_simple_border_like, second_colon, simple_border_like,
};
use crate::search::{begins_with_char, contains_char, first_is, has_char, has_prefix, starts_with};
use crate::text::{
    blank, chars_of, copy_text, extend, indent, indent_of, is_blank, is_str, push_str, skip, trim,
    trimmed,
};

verus! {

/// The lines `ls[from..to]`, each trimmed.
pub open spec fn trimmed_window(ls: Seq<Seq<char>>, from: int, to: int) -> Seq<Seq<char>> {
    Seq::new((to - from) as nat, |k: int| trimmed(ls[from + k]))
}

/// The lines `ls[from..to]`, where a blank line counts as an empty one.
pub open spec fn block_window(ls: Seq<Seq<char>>, from: int, to: int) -> Seq<Seq<char>> {
    Seq::new(
        (to - from) as nat,
        |k: int|
            if blank(ls[from + k]) {
                Seq::empty()
            } else {
                ls[from + k]
            },
    )
}

pub(crate) fn collect_trimmed(lines: &Vec<Vec<char>>, from: usize, to: usize) -> (r: Vec<
    Vec<char>,
>)
    requires
        from <= to <= lines.len(),
    ensures
        lines_view(r@) == trimmed_window(lines_view(lines@), from as int, to as int),
{
    let ghost ls = lines_view(lines@);
    let mut out: Vec<Vec<char>> = Vec::new();
    let mut k: usize = from;
    assert(lines_view(out@) =~= trimmed_window(ls, from as int, from as int));
    while k < to
        invariant
            from <= k <= to <= lines.len(),
            ls == lines_view(lines@),
            lines_view(out@) == trimmed_window(ls, from as int, k as int),
        decreases to - k,
    {
        assert(ls[k as int] == lines@[k as int]@);
        push_line(&mut out, trim(&lines[k]));
        k += 1;
        assert(lines_view(out@) =~= trimmed_window(ls, from as int, k as int));
    }
    out
}

pub(crate) fn collect_block(lines: &Vec<Vec<char>>, from: usize, to: usize) -> (r: Vec<Vec<char>>)
    requires
        from <= to <= lines.len(),
    ensures
        lines_view(r@) == block_window(lines_view(lines@), from as int, to as int),
{
    let ghost ls = lines_view(lines@);
    let mut out: Vec<Vec<char>> = Vec::new();
    let mut k: usize = from;
    assert(lines_view(out@) =~= block_window(ls, from as int, from as int));
    while k < to
        invariant
            from <= k <= to <= lines.len(),
            ls == lines_view(lines@),
            lines_view(out@) == block_window(ls, from as int, k as int),
        decreases to - k,
    {
        assert(ls[k as int] == lines@[k as int]@);
        if is_blank(&lines[k]) {
            push_line(&mut out, Vec::new());
        } else {
            push_line(&mut out, copy_text(&lines[k]));
        }
        k += 1;
        assert(lines_view(out@) =~= block_window(ls, from as int, k as int));
    }
    out
}

/// Whether the line after `i` goes on an indented block: it is indented
/// and not blank.
pub open spec fn indented_follows(ls: Seq<Seq<char>>, i: int) -> bool {
    i + 1 < ls.len() && !blank(ls[i + 1]) && indent(ls[i + 1]) > 0
}

pub(crate) fn is_indented_next(lines: &Vec<Vec<char>>, i: usize) -> (b: bool)
    requires
        i < lines.len(),
    ensures
        b == indented_follows(lines_view(lines@), i as int),
{
    if lines.len() - i > 1 {
        assert(lines_view(lines@)[i + 1] == lines@[i + 1]@);
        !is_blank(&lines[i + 1]) && indent_of(&lines[i + 1]) > 0
    } else {
        false
    }
}

/// A border of a simple table, as the block dispatch sees it.
pub open spec fn table_border(line: Seq<char>) -> bool {
    simple_border_like(trimmed(line))
}

/// Whether a line is a border of a simple table.
pub fn is_simple_table_border(line: &Vec<char>) -> (b: bool)
    ensures
        b == table_border(line@),
{
    let t = trim(line);
    is_simple_border_like(&t)
}

/// The first index at or after `i` of a line that is a border or blank, or
/// the number of lines.
pub open spec fn border_or_blank_from(ls: Seq<Seq<char>>, i: int) -> int
    decreases ls.len() - i,
{
    if 0 <= i < ls.len() && !table_border(trimmed(ls[i])) && !blank(ls[i]) {
        border_or_blank_from(ls, i + 1)
    } else {
        i
    }
}

/// The first border at or after `i` that comes before any blank line.
pub open spec fn closing_border_from(ls: Seq<Seq<char>>, i: int) -> Option<int>
    decreases ls.len() - i,
{
    if i < 0 || i >= ls.len() || blank(ls[i]) {
        None
    } else if table_border(trimmed(ls[i])) {
        Some(i)
    } else {
        closing_border_from(ls, i + 1)
    }
}

/// The index after a simple table that begins at `start`: after its
/// third border if it has one before a blank line, else after its second,
/// else at the blank line or the end that follows.
pub open spec fn simple_table_end(ls: Seq<Seq<char>>, start: int) -> int {
    let e = border_or_blank_from(ls, start + 1);
    if e < ls.len() && table_border(trimmed(ls[e])) {
        match closing_border_from(ls, e + 1) {
            Some(j) => j + 1,
            None => e + 1,
        }
    } else {
        e
    }
}

/// The scan for a border or a blank line stays within the lines.
pub proof fn lemma_border_or_blank_from(ls: Seq<Seq<char>>, i: int)
    requires
        0 <= i <= ls.len(),
    ensures
        i <= border_or_blank_from(ls, i) <= ls.len(),
    decreases ls.len() - i,
{
    if i < ls.len() && !table_border(trimmed(ls[i])) && !blank(ls[i]) {
        lemma_border_or_blank_from(ls, i + 1);
    }
}

/// A closing border lies at or after the index where its search began.
pub proof fn lemma_closing_border_from(ls: Seq<Seq<char>>, i: int)
    requires
        0 <= i,
    ensures
        closing_border_from(ls, i) matches Some(j) ==> i <= j < ls.len(),
    decreases ls.len() - i,
{
    if i < ls.len() && !blank(ls[i]) && !table_border(trimmed(ls[i])) {
        lemma_closing_border_from(ls, i + 1);
    }
}

fn find_closing_border(lines: &Vec<Vec<char>>, from: usize) -> (r: Option<usize>)
    requires
        from <= lines.len(),
    ensures
        crate::search::idx(r) == closing_border_from(lines_view(lines@), from as int),
        r matches Some(j) ==> from <= j < lines.len(),
{
    let ghost ls = lines_view(lines@);
    let mut j: usize = from;
    while j < lines.len()
        invariant
            from <= j <= lines.len(),
            ls == lines_view(lines@),
            closing_border_from(ls, j as int) == closing_border_from(ls, from as int),
        decreases lines.len() - j,
    {
        assert(ls[j as int] == lines@[j as int]@);
        if is_blank(&lines[j]) {
            return None;
        }
        let jt = trim(&lines[j]);
        if is_simple_table_border(&jt) {
            return Some(j);
        }
        j += 1;
    }
    None
}

/// Gathers the lines of a simple table that begins at `start`.
pub(crate) fn collect_simple_table(lines: &Vec<Vec<char>>, start: usize) -> (r: (Vec<char>, usize))
    requires
        start < lines.len(),
    ensures
        r.1 == simple_table_end(lines_view(lines@), start as int),
        r.0@ == join_between(lines_view(lines@), "\n"@, start as int, r.1 as int),
        start < r.1 <= lines.len(),
{
    let ghost ls = lines_view(lines@);
    let mut e: usize = start + 1;
    while e < lines.len()
        invariant
            start < e <= lines.len(),
            ls == lines_view(lines@),
            border_or_blank_from(ls, e as int) == border_or_blank_from(ls, start + 1),
        decreases lines.len() - e,
    {
        assert(ls[e as int] == lines@[e as int]@);
        let t = trim(&lines[e]);
        if is_simple_table_border(&t) {
            return match find_closing_border(lines, e + 1) {
                Some(j) => (join_range(lines, start, j + 1, "\n"), j + 1),
                None => (join_range(lines, start, e + 1, "\n"), e + 1),
            };
        } else if is_blank(&lines[e]) {
            return (join_range(lines, start, e, "\n"), e);
        }
        e += 1;
    }
    (join_range(lines, start, e, "\n"), e)
}

/// The first index at or after `i` of a line that is blank or begins with
/// neither `+` nor `|`, or the number of lines.
pub open spec fn grid_table_end_from(ls: Seq<Seq<char>>, i: int) -> int
    decreases ls.len() - i,
{
    if 0 <= i < ls.len() && !blank(ls[i]) && (first_is(trimmed(ls[i]), '+') || first_is(
        trimmed(ls[i]),
        '|',
    )) {
        grid_table_end_from(ls, i + 1)
    } else {
        i
    }
}

/// The end of a grid table lies at or after the index where its search began.
pub proof fn lemma_grid_table_end_from(ls: Seq<Seq<char>>, i: int)
    requires
        0 <= i <= ls.len(),
    ensures
        i <= grid_table_end_from(ls, i) <= ls.len(),
    decreases ls.len() - i,
{
    if i < ls.len() && !blank(ls[i]) && (first_is(trimmed(ls[i]), '+') || first_is(
        trimmed(ls[i]),
        '|',
    )) {
        lemma_grid_table_end_from(ls, i + 1);
    }
}

/// Gathers the lines of a grid table that begins at `start`.
pub(crate) fn collect_grid_table(lines: &Vec<Vec<char>>, start: usize) -> (r: (Vec<char>, usize))
    requires
        start < lines.len(),
    ensures
        r.1 == grid_table_end_from(lines_view(lines@), start + 1),
        r.0@ == join_between(lines_view(lines@), "\n"@, start as int, r.1 as int),
        start < r.1 <= lines.len(),
{
    let ghost ls = lines_view(lines@);
    let mut e: usize = start + 1;
    while e < lines.len()
        invariant
            start < e <= lines.len(),
            ls == lines_view(lines@),
            grid_table_end_from(ls, e as int) == grid_table_end_from(ls, start + 1),
        decreases lines.len() - e,
    {
        assert(ls[e as int] == lines@[e as int]@);
        if is_blank(&lines[e]) {
            return (join_range(lines, start, e, "\n"), e);
        }
        let t = trim(&lines[e]);
        if !begins_with_char(&t, '+') && !begins_with_char(&t, '|') {
            return (join_range(lines, start, e, "\n"), e);
        }
        e += 1;
    }
    (join_range(lines, start, e, "\n"), e)
}

/// The index after the indented lines that follow a comment or a definition
/// from `i` on: they end before the first line that is not indented, and
/// after the first blank line that no indented line follows.
pub open spec fn skipped_from(ls: Seq<Seq<char>>, i: int) -> int
    decreases ls.len() - i,
{
    if i < 0 || i >= ls.len() {
        i
    } else if blank(ls[i]) {
        if indented_follows(ls, i) {
            skipped_from(ls, i + 1)
        } else {
            i + 1
        }
    } else if indent(ls[i]) == 0 {
        i
    } else {
        skipped_from(ls, i + 1)
    }
}

/// Skipping indented lines stays within the lines.
pub proof fn lemma_skipped_from(ls: Seq<Seq<char>>, i: int)
    requires
        0 <= i <= ls.len(),
    ensures
        i <= skipped_from(ls, i) <= ls.len(),
    decreases ls.len() - i,
{
    if i < ls.len() {
        if blank(ls[i]) {
            if indented_follows(ls, i) {
                lemma_skipped_from(ls, i + 1);
            }
        } else if indent(ls[i]) != 0 {
            lemma_skipped_from(ls, i + 1);
        }
    }
}

/// The index after the block that begins at `start` and its indented
/// lines.
pub(crate) fn skip_indented_block(lines: &Vec<Vec<char>>, start: usize) -> (r: usize)
    requires
        start < lines.len(),
    ensures
        r == skipped_from(lines_view(lines@), start + 1),
        start < r <= lines.len(),
{
    let ghost ls = lines_view(lines@);
    let mut i: usize = start + 1;
    while i < lines.len()
        invariant
            start < i <= lines.len(),
            ls == lines_view(lines@),
            skipped_from(ls, i as int) == skipped_from(ls, start + 1),
        decreases lines.len() - i,
    {
        assert(ls[i as int] == lines@[i as int]@);
        if is_blank(&lines[i]) {
            if is_indented_next(lines, i) {
                i += 1;
                continue;
            }
            return i + 1;
        }
        if indent_of(&lines[i]) == 0 {
            return i;
        }
        i += 1;
    }
    i
}

/// The first index at or after `i` of a line that is not blank.
pub open spec fn after_blanks(ls: Seq<Seq<char>>, i: int) -> int
    decreases ls.len() - i,
{
    if 0 <= i < ls.len() && blank(ls[i]) {
        after_blanks(ls, i + 1)
    } else {
        i
    }
}

/// The index after the indented block that begins at `i`: the block ends
/// before the first line that is not indented and before the first blank
/// line that no indented line follows.
pub open spec fn indented_end(ls: Seq<Seq<char>>, i: int) -> int
    decreases ls.len() - i,
{
    if i < 0 || i >= ls.len() {
        i
    } else if blank(ls[i]) {
        if indented_follows(ls, i) {
            indented_end(ls, i + 1)
        } else {
            i
        }
    } else if indent(ls[i]) == 0 {
        i
    } else {
        indented_end(ls, i + 1)
    }
}

/// Passing over blank lines stays within the lines.
pub proof fn lemma_after_blanks(ls: Seq<Seq<char>>, i: int)
    requires
        0 <= i <= ls.len(),
    ensures
        i <= after_blanks(ls, i) <= ls.len(),
    decreases ls.len() - i,
{
    if i < ls.len() && blank(ls[i]) {
        lemma_after_blanks(ls, i + 1);
    }
}

/// An indented block ends at or after its start, and within the lines.
pub proof fn lemma_indented_end(ls: Seq<Seq<char>>, i: int)
    requires
        0 <= i <= ls.len(),
    ensures
        i <= indented_end(ls, i) <= ls.len(),
    decreases ls.len() - i,
{
    if i < ls.len() && (if blank(ls[i]) {
        indented_follows(ls, i)
    } else {
        indent(ls[i]) != 0
    }) {
        lemma_indented_end(ls, i + 1);
    }
}

pub(crate) fn find_indented_end(lines: &Vec<Vec<char>>, from: usize) -> (r: usize)
    requires
        from <= lines.len(),
    ensures
        r == indented_end(lines_view(lines@), from as int),
        from <= r <= lines.len(),
{
    let ghost ls = lines_view(lines@);
    let mut i: usize = from;
    while i < lines.len()
        invariant
            from <= i <= lines.len(),
            ls == lines_view(lines@),
            indented_end(ls, i as int) == indented_end(ls, from as int),
        decreases lines.len() - i,
    {
        assert(ls[i as int] == lines@[i as int]@);
        if is_blank(&lines[i]) {
            if !is_indented_next(lines, i) {
                return i;
            }
        } else if indent_of(&lines[i]) == 0 {
            return i;
        }
        i += 1;
    }
    i
}

/// The text of the indented block that follows the blank lines from
/// `start` on.
pub open spec fn indented_text(ls: Seq<Seq<char>>, start: int) -> Seq<char> {
    joined(
        block_window(ls, after_blanks(ls, start), indented_end(ls, after_blanks(ls, start))),
        "\n"@,
    )
}

/// Gathers the indented block that follows the blank lines from `start`
/// on.
pub(crate) fn collect_indented_block(lines: &Vec<Vec<char>>, start: usize) -> (r: (
    Vec<char>,
    usize,
))
    requires
        start <= lines.len(),
    ensures
        r.1 == indented_end(lines_view(lines@), after_blanks(lines_view(lines@), start as int)),
        r.0@ == indented_text(lines_view(lines@), start as int),
        start <= r.1 <= lines.len(),
{
    let ghost ls = lines_view(lines@);
    let mut i: usize = start;
    while i < lines.len() && is_blank(&lines[i])
        invariant
            start <= i <= lines.len(),
            ls == lines_view(lines@),
            after_blanks(ls, i as int) == after_blanks(ls, start as int),
        decreases lines.len() - i,
    {
        assert(ls[i as int] == lines@[i as int]@);
        i += 1;
    }
    assert(i < lines.len() ==> ls[i as int] == lines@[i as int]@);
    let end = find_indented_end(lines, i);
    let parts = collect_block(lines, i, end);
    (join_lines(&parts, "\n"), end)
}

/// The index after the option lines from `i` on: indented lines of the
/// form `:name: value`.
pub open spec fn option_lines_end(ls: Seq<Seq<char>>, i: int) -> int
    decreases ls.len() - i,
{
    if 0 <= i < ls.len() && !blank(ls[i]) && indent(ls[i]) > 0 && second_colon(trimmed(ls[i]))
        is Some {
        option_lines_end(ls, i + 1)
    } else {
        i
    }
}

/// The options that the lines `ls[from..n]` give.
pub open spec fn options_between(ls: Seq<Seq<char>>, from: int, n: int) -> Map<
    Seq<char>,
    Seq<char>,
>
    decreases n - from,
{
    if n <= from {
        Map::empty()
    } else {
        options_between(ls, from, n - 1).insert(
            colon_name(trimmed(ls[n - 1])),
            colon_value(trimmed(ls[n - 1])),
        )
    }
}

/// The index after the line at `i` if that line is blank, else `i`.
pub open spec fn after_one_blank(ls: Seq<Seq<char>>, i: int) -> int {
    if 0 <= i < ls.len() && blank(ls[i]) {
        i + 1
    } else {
        i
    }
}

/// Where the parts of a directive lie whose first line is the one before
/// `start`: the first option line, the index after the options, the first
/// line of the content, and the index after the content. One blank line
/// may come before the options, and one between them and the content.
pub open spec fn directive_layout(ls: Seq<Seq<char>>, start: int) -> (int, int, int, int) {
    let a = after_one_blank(ls, start);
    let b = option_lines_end(ls, a);
    let c = after_one_blank(ls, b);
    (a, b, c, indented_end(ls, c))
}

/// The options of the directive whose first line is the one before `start`.
pub open spec fn directive_options(ls: Seq<Seq<char>>, start: int) -> Map<Seq<char>, Seq<char>> {
    options_between(ls, directive_layout(ls, start).0, directive_layout(ls, start).1)
}

/// The content of a directive: its indented block, dedented.
pub open spec fn directive_content(ls: Seq<Seq<char>>, start: int) -> Seq<char> {
    let (a, b, c, end) = directive_layout(ls, start);
    if end <= c {
        Seq::empty()
    } else {
        dedented(joined(block_window(ls, c, end), "\n"@))
    }
}

/// The index after the directive whose first line is the one before `start`.
pub open spec fn directive_end(ls: Seq<Seq<char>>, start: int) -> int {
    directive_layout(ls, start).3
}

/// A simple table ends after its first line and within the lines.
pub proof fn lemma_simple_table_end(ls: Seq<Seq<char>>, start: int)
    requires
        0 <= start < ls.len(),
    ensures
        start < simple_table_end(ls, start) <= ls.len(),
{
    lemma_border_or_blank_from(ls, start + 1);
    let e = border_or_blank_from(ls, start + 1);
    if e < ls.len() {
        lemma_closing_border_from(ls, e + 1);
    }
}

/// A directive ends at or after the line that follows its first line, and
/// within the lines.
pub proof fn lemma_directive_end(ls: Seq<Seq<char>>, start: int)
    requires
        0 <= start <= ls.len(),
    ensures
        start <= directive_end(ls, start) <= ls.len(),
{
    let a = after_one_blank(ls, start);
    lemma_option_lines_end(ls, a);
    let b = option_lines_end(ls, a);
    let c = after_one_blank(ls, b);
    lemma_indented_end(ls, c);
}

/// An indented block that is looked for from `start` on ends at or after
/// `start`, and within the lines.
pub proof fn lemma_indented_block_end(ls: Seq<Seq<char>>, start: int)
    requires
        0 <= start <= ls.len(),
    ensures
        start <= indented_end(ls, after_blanks(ls, start)) <= ls.len(),
{
    lemma_after_blanks(ls, start);
    lemma_indented_end(ls, after_blanks(ls, start));
}

/// The option lines end at or after their start, and within the lines.
pub proof fn lemma_option_lines_end(ls: Seq<Seq<char>>, i: int)
    requires
        0 <= i <= ls.len(),
    ensures
        i <= option_lines_end(ls, i) <= ls.len(),
    decreases ls.len() - i,
{
    if i < ls.len() && !blank(ls[i]) && indent(ls[i]) > 0 && second_colon(trimmed(ls[i]))
        is Some {
        lemma_option_lines_end(ls, i + 1);
    }
}

fn skip_one_blank(lines: &Vec<Vec<char>>, i: usize) -> (r: usize)
    requires
        i <= lines.len(),
    ensures
        r == after_one_blank(lines_view(lines@), i as int),
        i <= r <= lines.len(),
{
    assert(i < lines.len() ==> lines_view(lines@)[i as int] == lines@[i as int]@);
    if i < lines.len() && is_blank(&lines[i]) {
        i + 1
    } else {
        i
    }
}

fn collect_options(lines: &Vec<Vec<char>>, a: usize) -> (r: (Options, usize))
    requires
        a <= lines.len(),
    ensures
        r.1 == option_lines_end(lines_view(lines@), a as int),
        r.0@ == options_between(lines_view(lines@), a as int, r.1 as int),
        a <= r.1 <= lines.len(),
{
    let ghost ls = lines_view(lines@);
    let mut options = Options::new();
    let mut i: usize = a;
    while i < lines.len()
        invariant
            a <= i <= lines.len(),
            ls == lines_view(lines@),
            option_lines_end(ls, i as int) == option_lines_end(ls, a as int),
            options@ == options_between(ls, a as int, i as int),
        decreases lines.len() - i,
    {
        assert(ls[i as int] == lines@[i as int]@);
        if is_blank(&lines[i]) || indent_of(&lines[i]) == 0 {
            return (options, i);
        }
        let t = trim(&lines[i]);
        match colon_parts(&t) {
            Some((name, value)) => {
                options.put(name, value);
                i += 1;
            },
            None => {
                return (options, i);
            },
        }
    }
    (options, i)
}

/// Gathers the options and the content of a directive whose first line is
/// the one before `start`.
pub(crate) fn collect_directive(lines: &Vec<Vec<char>>, start: usize) -> (r: (
    Options,
    Vec<char>,
    usize,
))
    requires
        start <= lines.len(),
    ensures
        r.0@ == directive_options(lines_view(lines@), start as int),
        r.1@ == directive_content(lines_view(lines@), start as int),
        r.2 == directive_end(lines_view(lines@), start as int),
        start <= r.2 <= lines.len(),
{
    let ghost ls = lines_view(lines@);
    let a = skip_one_blank(lines, start);
    let (options, b) = collect_options(lines, a);
    let c = skip_one_blank(lines, b);
    let end = find_indented_end(lines, c);
    let content = if end <= c {
        Vec::new()
    } else {
        let parts = collect_block(lines, c, end);
        let text = join_lines(&parts, "\n");
        dedent_text(&text)
    };
    (options, content, end)
}

/// The first index at or after `i` of a blank line, or the number of
/// lines.
pub open spec fn blank_from(ls: Seq<Seq<char>>, i: int) -> int
    decreases ls.len() - i,
{
    if 0 <= i < ls.len() && !blank(ls[i]) {
        blank_from(ls, i + 1)
    } else {
        i
    }
}

/// The next blank line lies at or after the start of its search, and after a line
/// that is not blank.
pub proof fn lemma_blank_from(ls: Seq<Seq<char>>, i: int)
    requires
        0 <= i <= ls.len(),
    ensures
        i <= blank_from(ls, i) <= ls.len(),
        i < ls.len() && !blank(ls[i]) ==> i < blank_from(ls, i),
    decreases ls.len() - i,
{
    if i < ls.len() && !blank(ls[i]) {
        lemma_blank_from(ls, i + 1);
    }
}

pub(crate) fn find_blank(lines: &Vec<Vec<char>>, start: usize) -> (r: usize)
    requires
        start <= lines.len(),
    ensures
        r == blank_from(lines_view(lines@), start as int),
        start <= r <= lines.len(),
        start < lines.len() && !blank(lines_view(lines@)[start as int]) ==> start < r,
{
    let ghost ls = lines_view(lines@);
    let mut e: usize = start;
    proof {
        lemma_blank_from(ls, start as int);
    }
    while e < lines.len() && !is_blank(&lines[e])
        invariant
            start <= e <= lines.len(),
            ls == lines_view(lines@),
            blank_from(ls, e as int) == blank_from(ls, start as int),
        decreases lines.len() - e,
    {
        assert(ls[e as int] == lines@[e as int]@);
        e += 1;
    }
    assert(e < lines.len() ==> ls[e as int] == lines@[e as int]@);
    e
}

/// Gathers a doctest block: the lines from `start` up to the next blank
/// line.
pub(crate) fn collect_doctest_block(lines: &Vec<Vec<char>>, start: usize) -> (r: (Vec<char>, usize))
    requires
        start <= lines.len(),
    ensures
        r.1 == blank_from(lines_view(lines@), start as int),
        r.0@ == join_between(lines_view(lines@), "\n"@, start as int, r.1 as int),
        start <= r.1 <= lines.len(),
        start < lines.len() && !blank(lines_view(lines@)[start as int]) ==> start < r.1,
{
    let end = find_blank(lines, start);
    (join_range(lines, start, end, "\n"), end)
}

/// Gathers what may be an option list: the lines from `start` up to the
/// next blank line, each trimmed.
pub(crate) fn collect_option_list(lines: &Vec<Vec<char>>, start: usize) -> (r: (Vec<char>, usize))
    requires
        start <= lines.len(),
    ensures
        r.1 == blank_from(lines_view(lines@), start as int),
        r.0@ == joined(trimmed_window(lines_view(lines@), start as int, r.1 as int), "\n"@),
        start <= r.1 <= lines.len(),
        start < lines.len() && !blank(lines_view(lines@)[start as int]) ==> start < r.1,
{
    let end = find_blank(lines, start);
    let parts = collect_trimmed(lines, start, end);
    (join_lines(&parts, "\n"), end)
}

/// Whether a trimmed line belongs to a line block.
pub open spec fn line_block_line(t: Seq<char>) -> bool {
    t == "|"@ || has_prefix(t, "| "@)
}

/// The index after the line block that begins at `i`.
pub open spec fn line_block_end(ls: Seq<Seq<char>>, i: int) -> int
    decreases ls.len() - i,
{
    if 0 <= i < ls.len() && line_block_line(trimmed(ls[i])) {
        line_block_end(ls, i + 1)
    } else {
        i
    }
}

/// A line block ends within the lines, and after its first line.
pub proof fn lemma_line_block_end(ls: Seq<Seq<char>>, i: int)
    requires
        0 <= i <= ls.len(),
    ensures
        i <= line_block_end(ls, i) <= ls.len(),
        i < ls.len() && line_block_line(trimmed(ls[i])) ==> i < line_block_end(ls, i),
    decreases ls.len() - i,
{
    if i < ls.len() && line_block_line(trimmed(ls[i])) {
        lemma_line_block_end(ls, i + 1);
    }
}

/// One line of a line block: a bare bar is a forced break, the white
/// space after the marker becomes a margin in ems.
pub open spec fn line_block_row(line: Seq<char>) -> Seq<char> {
    let t = trimmed(line);
    let content = t.subrange(2, t.len() as int);
    if t == "|"@ {
        "<div class=\"line\"><br></div>\n"@
    } else if indent(content) > 0 {
        "<div class=\"line\" style=\"margin-left: "@ + decimal(indent(content) as nat) + "em\">"@
            + inline_html(trimmed(content)) + "</div>\n"@
    } else {
        "<div class=\"line\">"@ + inline_html(content) + "</div>\n"@
    }
}

/// The HTML of the lines `ls[from..n]` of a line block.
pub open spec fn line_block_rows(ls: Seq<Seq<char>>, from: int, n: int) -> Seq<char>
    decreases n - from,
{
    if n <= from {
        Seq::empty()
    } else {
        line_block_rows(ls, from, n - 1) + line_block_row(ls[n - 1])
    }
}

/// The HTML of the line block that begins at `start`.
pub open spec fn line_block_html(ls: Seq<Seq<char>>, start: int) -> Seq<char> {
    "<div class=\"line-block\">\n"@ + line_block_rows(ls, start, line_block_end(ls, start))
        + "</div>"@
}

/// Renders the line block that begins at `start`.
pub(crate) fn convert_line_block(lines: &Vec<Vec<char>>, start: usize) -> (r: (Vec<char>, usize))
    requires
        start <= lines.len(),
    ensures
        r.1 == line_block_end(lines_view(lines@), start as int),
        r.0@ == line_block_html(lines_view(lines@), start as int),
        start <= r.1 <= lines.len(),
        start < lines.len() && line_block_line(trimmed(lines_view(lines@)[start as int]))
            ==> start < r.1,
{
    let ghost ls = lines_view(lines@);
    let mut rows: Vec<char> = Vec::new();
    let mut i: usize = start;
    while i < lines.len()
        invariant
            start <= i <= lines.len(),
            ls == lines_view(lines@),
            line_block_end(ls, i as int) == line_block_end(ls, start as int),
            rows@ == line_block_rows(ls, start as int, i as int),
        decreases lines.len() - i,
    {
        assert(ls[i as int] == lines@[i as int]@);
        let t = trim(&lines[i]);
        if is_str(&t, "|") {
            push_str(&mut rows, "<div class=\"line\"><br></div>\n");
        } else if starts_with(&t, "| ") {
            proof {
                reveal_strlit("| ");
            }
            let content = skip(&t, 2);
            let leading = indent_of(&content);
            if leading > 0 {
                let mut row = chars_of("<div class=\"line\" style=\"margin-left: ");
                let d = decimal_of(leading as u128);
                extend(&mut row, &d);
                push_str(&mut row, "em\">");
                let inner = trim(&content);
                let h = process_inline_text(&inner);
                extend(&mut row, &h);
                push_str(&mut row, "</div>\n");
                extend(&mut rows, &row);
            } else {
                let mut row = chars_of("<div class=\"line\">");
                let h = process_inline_text(&content);
                extend(&mut row, &h);
                push_str(&mut row, "</div>\n");
                extend(&mut rows, &row);
            }
        } else {
            return (wrap_line_block(&rows), i);
        }
        i += 1;
    }
    (wrap_line_block(&rows), i)
}

fn wrap_line_block(rows: &Vec<char>) -> (r: Vec<char>)
    ensures
        r@ == "<div class=\"line-block\">\n"@ + rows@ + "</div>"@,
{
    let mut out = chars_of("<div class=\"line-block\">\n");
    extend(&mut out, rows);
    push_str(&mut out, "</div>");
    out
}

/// Whether a trimmed line can begin a block that ends a paragraph.
pub open spec fn ends_paragraph(t: Seq<char>) -> bool {
    has_prefix(t, ".. "@) || has_prefix(t, "- "@) || has_prefix(t, "* "@) || enumerated(
        trimmed(t),
    ) || table_border(t) || (first_is(t, '+') && has_char(t, '-'))
}

/// Whether a line, once trimmed, begins with an enumerator.
pub fn is_enumerated_item(s: &Vec<char>) -> (b: bool)
    ensures
        b == enumerated(trimmed(s@)),
{
    let t = trim(s);
    is_enumerated_list_item(&t)
}

fn is_paragraph_end(t: &Vec<char>) -> (b: bool)
    ensures
        b == ends_paragraph(t@),
{
    starts_with(t, ".. ") || starts_with(t, "- ") || starts_with(t, "* ") || is_enumerated_item(t)
        || is_simple_table_border(t) || (begins_with_char(t, '+') && contains_char(t, '-'))
}

/// Where the lines of a paragraph that begins at `start` stop, scanning
/// from `i`: at a blank line, at an indented line or the start of another
/// block after the first line, at an adornment after the first line, or
/// at the end.
pub open spec fn paragraph_stop(ls: Seq<Seq<char>>, start: int, i: int) -> int
    decreases ls.len() - i,
{
    if i < 0 || i >= ls.len() || blank(ls[i]) {
        i
    } else if i > start && (indent(ls[i]) > 0 || ends_paragraph(trimmed(ls[i])) || adornment_run(
        trimmed(ls[i]),
    )) {
        i
    } else {
        paragraph_stop(ls, start, i + 1)
    }
}

/// Whether the paragraph that begins at `start` stops at the adornment of
/// a title, so that its last line is that title.
pub open spec fn stops_at_title(ls: Seq<Seq<char>>, start: int) -> bool {
    let e = paragraph_stop(ls, start, start);
    start < e < ls.len() && !blank(ls[e]) && !(indent(ls[e]) > 0 || ends_paragraph(
        trimmed(ls[e]),
    )) && adornment_run(trimmed(ls[e]))
}

/// The text of the paragraph that begins at `start`: its lines, trimmed
/// and joined by spaces. A line that an adornment follows is a title and
/// no part of the paragraph.
pub open spec fn paragraph_text(ls: Seq<Seq<char>>, start: int) -> Seq<char> {
    let e = paragraph_stop(ls, start, start);
    if stops_at_title(ls, start) {
        joined(trimmed_window(ls, start, e - 1), " "@)
    } else {
        joined(trimmed_window(ls, start, e), " "@)
    }
}

/// The index after the paragraph: a paragraph that stops at the adornment
/// of a title ends before that title, which may leave nothing of it.
pub open spec fn paragraph_end(ls: Seq<Seq<char>>, start: int) -> int {
    let e = paragraph_stop(ls, start, start);
    if stops_at_title(ls, start) {
        e - 1
    } else {
        e
    }
}

/// A paragraph stops within the lines, and after its first line if that line is
/// not blank.
pub proof fn lemma_paragraph_stop(ls: Seq<Seq<char>>, start: int, i: int)
    requires
        0 <= start <= i <= ls.len(),
    ensures
        i <= paragraph_stop(ls, start, i) <= ls.len(),
        i == start && start < ls.len() && !blank(ls[start]) ==> start < paragraph_stop(
            ls,
            start,
            i,
        ),
    decreases ls.len() - i,
{
    if i < ls.len() && !blank(ls[i]) && !(i > start && (indent(ls[i]) > 0 || ends_paragraph(
        trimmed(ls[i]),
    ) || adornment_run(trimmed(ls[i])))) {
        lemma_paragraph_stop(ls, start, i + 1);
    }
}

/// Gathers the paragraph that begins at `start`.
pub(crate) fn collect_paragraph(lines: &Vec<Vec<char>>, start: usize) -> (r: (Vec<char>, usize))
    requires
        start <= lines.len(),
    ensures
        r.0@ == paragraph_text(lines_view(lines@), start as int),
        r.1 == paragraph_end(lines_view(lines@), start as int),
        start <= r.1 <= lines.len(),
{
    let ghost ls = lines_view(lines@);
    let mut i: usize = start;
    while i < lines.len()
        invariant
            start <= i <= lines.len(),
            ls == lines_view(lines@),
            paragraph_stop(ls, start as int, i as int) == paragraph_stop(
                ls,
                start as int,
                start as int,
            ),
        decreases lines.len() - i,
    {
        assert(ls[i as int] == lines@[i as int]@);
        if is_blank(&lines[i]) {
            return (join_trimmed(lines, start, i), i);
        }
        let t = trim(&lines[i]);
        if i > start {
            if indent_of(&lines[i]) > 0 || is_paragraph_end(&t) {
                return (join_trimmed(lines, start, i), i);
            }
            if is_section_adornment(&t) {
                return (join_trimmed(lines, start, i - 1), i - 1);
            }
        }
        i += 1;
    }
    (join_trimmed(lines, start, i), i)
}

fn join_trimmed(lines: &Vec<Vec<char>>, from: usize, to: usize) -> (r: Vec<char>)
    requires
        from <= to <= lines.len(),
    ensures
        r@ == joined(trimmed_window(lines_view(lines@), from as int, to as int), " "@),
{
    let parts = collect_trimmed(lines, from, to);
    join_lines(&parts, " ")
}

} // verus!
