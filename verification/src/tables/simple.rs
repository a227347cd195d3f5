//! Simple tables: columns are the runs of `=` on the first border.

use vstd::prelude::*;
use crate::html_utils::{escape, escaped};
use crate::lines::{lines_of, lines_view, split_lines};
use crate::parser::{is_only, only};
use crate::search::{contains_char, has_char, has_prefix, starts_with};
use crate::tables::cell::{cell_inline, process_inline_with_escapes};
use crate::text::{
    chars_of, copy_range, extend, lemma_concat_assoc, push_if, push_str, string_of, trim, trimmed,
};

verus! {

/// A border of a simple table: `=` and spaces, with at least one `=`.
pub open spec fn simple_border(t: Seq<char>) -> bool {
    t.len() > 0 && only(t, '=', ' ') && has_char(t, '=')
}

/// Whether `t` is a border of a simple table.
pub fn is_simple_border(t: &Vec<char>) -> (b: bool)
    ensures
        b == simple_border(t@),
{
    t.len() > 0 && is_only(t, '=', ' ') && contains_char(t, '=')
}

/// Whether every value of `s` is `-`, `=` or a space.
pub open spec fn only_rule(s: Seq<char>) -> bool {
    forall|i: int| 0 <= i < s.len() ==> (#[trigger] s[i]) == '-' || s[i] == ' ' || s[i] == '='
}

/// A line that rules off spanning headers: `-`, `=` and spaces, with at
/// least one `-`.
pub open spec fn rule_line(t: Seq<char>) -> bool {
    only_rule(t) && has_char(t, '-')
}

fn is_dash_separator(t: &Vec<char>) -> (b: bool)
    ensures
        b == rule_line(t@),
{
    let mut i: usize = 0;
    while i < t.len()
        invariant
            i <= t.len(),
            forall|j: int| 0 <= j < i ==> (#[trigger] t@[j]) == '-' || t@[j] == ' ' || t@[j] == '=',
        decreases t.len() - i,
    {
        if t[i] != '-' && t[i] != ' ' && t[i] != '=' {
            return false;
        }
        i += 1;
    }
    contains_char(t, '-')
}

/// Whether a block is a simple table: at least three lines, the first and
/// the last of which are borders.
pub open spec fn simple_table(text: Seq<char>) -> bool {
    let ls = lines_of(text);
    ls.len() >= 3 && simple_border(trimmed(ls[0])) && simple_border(trimmed(ls[ls.len() - 1]))
}

/// Whether a block is a simple table.
pub fn is_simple_table_text(text: &Vec<char>) -> (b: bool)
    ensures
        b == simple_table(text@),
{
    let lines = split_lines(text);
    if lines.len() < 3 {
        return false;
    }
    let ghost ls = lines_view(lines@);
    assert(ls[0] == lines@[0]@);
    assert(ls[ls.len() - 1] == lines@[lines.len() - 1]@);
    let first = trim(&lines[0]);
    let last = trim(&lines[lines.len() - 1]);
    is_simple_border(&first) && is_simple_border(&last)
}

/// Whether a block is a simple table.
pub fn is_simple_table(text: &str) -> (b: bool)
    ensures
        b == simple_table(text@),
{
    let v = chars_of(text);
    is_simple_table_text(&v)
}

/// The runs of `=` in `s` from `i` on, each as its first index and the
/// index after its last, where `open` is the start of the run being read,
/// or negative outside a run.
pub open spec fn columns_scan(s: Seq<char>, i: int, open: int) -> Seq<(int, int)>
    decreases s.len() - i,
{
    if i < 0 || i >= s.len() {
        if open >= 0 {
            seq![(open, s.len() as int)]
        } else {
            Seq::empty()
        }
    } else if s[i] == '=' {
        columns_scan(s, i + 1, if open >= 0 {
            open
        } else {
            i
        })
    } else if open >= 0 {
        seq![(open, i)] + columns_scan(s, i + 1, -1)
    } else {
        columns_scan(s, i + 1, -1)
    }
}

/// The columns that a border gives.
pub open spec fn column_bounds(border: Seq<char>) -> Seq<(int, int)> {
    columns_scan(border, 0, -1)
}

/// Column bounds as mathematical integers.
pub open spec fn bounds_view(v: Seq<(usize, usize)>) -> Seq<(int, int)> {
    Seq::new(v.len(), |k: int| (v[k].0 as int, v[k].1 as int))
}

fn parse_column_boundaries(border: &Vec<char>) -> (r: Vec<(usize, usize)>)
    ensures
        bounds_view(r@) == column_bounds(border@),
        forall|k: int| 0 <= k < r@.len() ==> (#[trigger] r@[k]).0 < r@[k].1,
{
    let mut cols: Vec<(usize, usize)> = Vec::new();
    let mut i: usize = 0;
    let mut open: Option<usize> = None;
    assert(bounds_view(cols@) =~= Seq::empty());
    while i < border.len()
        invariant
            i <= border.len(),
            open matches Some(o) ==> o < i,
            bounds_view(cols@) + columns_scan(
                border@,
                i as int,
                match open {
                    Some(o) => o as int,
                    None => -1,
                },
            ) == column_bounds(border@),
            forall|k: int| 0 <= k < cols@.len() ==> (#[trigger] cols@[k]).0 < cols@[k].1,
        decreases border.len() - i,
    {
        let ghost before = bounds_view(cols@);
        if border[i] == '=' {
            if open.is_none() {
                open = Some(i);
            }
        } else {
            if let Some(o) = open {
                cols.push((o, i));
                assert(bounds_view(cols@) =~= before.push((o as int, i as int)));
                assert(before.push((o as int, i as int)) + columns_scan(border@, i + 1, -1)
                    =~= before + (seq![(o as int, i as int)] + columns_scan(
                    border@,
                    i + 1,
                    -1,
                )));
            }
            open = None;
        }
        i += 1;
    }
    let ghost before = bounds_view(cols@);
    if let Some(o) = open {
        cols.push((o, border.len()));
        assert(bounds_view(cols@) =~= before + seq![(o as int, border.len() as int)]);
    } else {
        assert(before + Seq::<(int, int)>::empty() =~= before);
    }
    cols
}

/// The text of the cell that a line holds between the indices `a` and `b`.
pub open spec fn cell_text(line: Seq<char>, a: int, b: int) -> Seq<char> {
    let s = if a < line.len() {
        a
    } else {
        line.len() as int
    };
    let e = if b < line.len() {
        b
    } else {
        line.len() as int
    };
    if s < line.len() {
        trimmed(line.subrange(s, e))
    } else {
        Seq::empty()
    }
}

fn extract_cell(line: &Vec<char>, a: usize, b: usize) -> (r: Vec<char>)
    requires
        a <= b,
    ensures
        r@ == cell_text(line@, a as int, b as int),
{
    let s = if a < line.len() {
        a
    } else {
        line.len()
    };
    let e = if b < line.len() {
        b
    } else {
        line.len()
    };
    if s < line.len() {
        let part = copy_range(line, s, e);
        trim(&part)
    } else {
        Vec::new()
    }
}

/// The HTML of one cell: an address alone becomes a link to itself,
/// anything else is read as inline markup.
pub open spec fn simple_cell_html(cell: Seq<char>) -> Seq<char> {
    if has_prefix(cell, "http://"@) || has_prefix(cell, "https://"@) {
        "<a href=\""@ + escaped(trimmed(cell)) + "\">"@ + escaped(trimmed(cell)) + "</a>"@
    } else {
        cell_inline(cell)
    }
}

fn render_simple_cell(cell: &Vec<char>) -> (r: Vec<char>)
    ensures
        r@ == simple_cell_html(cell@),
{
    if starts_with(cell, "http://") || starts_with(cell, "https://") {
        let url = trim(cell);
        let e = escape(&url);
        let mut out = chars_of("<a href=\"");
        extend(&mut out, &e);
        push_str(&mut out, "\">");
        extend(&mut out, &e);
        push_str(&mut out, "</a>");
        out
    } else {
        process_inline_with_escapes(cell)
    }
}

/// The HTML of the first `n` cells of a row.
pub open spec fn simple_cells_upto(line: Seq<char>, cols: Seq<(int, int)>, tag: Seq<char>, n: int)
    -> Seq<char>
    decreases n,
{
    if n <= 0 {
        Seq::empty()
    } else {
        simple_cells_upto(line, cols, tag, n - 1) + "<"@ + tag + ">"@ + simple_cell_html(
            cell_text(line, cols[n - 1].0, cols[n - 1].1),
        ) + "</"@ + tag + ">"@
    }
}

/// The HTML of one row.
pub open spec fn simple_row_html(line: Seq<char>, cols: Seq<(int, int)>, tag: Seq<char>) -> Seq<
    char,
> {
    "<tr>"@ + simple_cells_upto(line, cols, tag, cols.len() as int) + "</tr>\n"@
}

fn render_simple_row(line: &Vec<char>, cols: &Vec<(usize, usize)>, tag: &str) -> (r: Vec<char>)
    requires
        forall|k: int| 0 <= k < cols@.len() ==> (#[trigger] cols@[k]).0 < cols@[k].1,
    ensures
        r@ == simple_row_html(line@, bounds_view(cols@), tag@),
{
    let mut cells: Vec<char> = Vec::new();
    let mut k: usize = 0;
    while k < cols.len()
        invariant
            k <= cols.len(),
            forall|j: int| 0 <= j < cols@.len() ==> (#[trigger] cols@[j]).0 < cols@[j].1,
            cells@ == simple_cells_upto(line@, bounds_view(cols@), tag@, k as int),
        decreases cols.len() - k,
    {
        let (a, b) = cols[k];
        assert(bounds_view(cols@)[k as int] == (a as int, b as int));
        let cell = extract_cell(line, a, b);
        let h = render_simple_cell(&cell);
        push_str(&mut cells, "<");
        push_str(&mut cells, tag);
        push_str(&mut cells, ">");
        extend(&mut cells, &h);
        push_str(&mut cells, "</");
        push_str(&mut cells, tag);
        push_str(&mut cells, ">");
        k += 1;
    }
    let mut out = chars_of("<tr>");
    extend(&mut out, &cells);
    push_str(&mut out, "</tr>\n");
    out
}

/// The indices of the borders among the first `n` lines.
pub open spec fn border_positions(ls: Seq<Seq<char>>, n: int) -> Seq<int>
    decreases n,
{
    if n <= 0 {
        Seq::empty()
    } else if simple_border(trimmed(ls[n - 1])) {
        border_positions(ls, n - 1).push(n - 1)
    } else {
        border_positions(ls, n - 1)
    }
}

/// The tag of a cell: `th` in the header, else `td`.
pub open spec fn tag_of(in_header: bool) -> Seq<char> {
    if in_header {
        "th"@
    } else {
        "td"@
    }
}

/// The rows of the lines from `i` on. With a header, the second border
/// (at index `second`) ends the header if a row came before it; `rows` counts
/// the rows of the header so far.
pub open spec fn simple_rows_from(
    ls: Seq<Seq<char>>,
    cols: Seq<(int, int)>,
    i: int,
    in_header: bool,
    rows: int,
    second: int,
) -> Seq<char>
    decreases ls.len() - i,
{
    if i < 0 || i >= ls.len() {
        Seq::empty()
    } else {
        let t = trimmed(ls[i]);
        if simple_border(t) {
            if in_header && i == second && rows > 0 {
                "</thead>\n<tbody>\n"@ + simple_rows_from(ls, cols, i + 1, false, rows, second)
            } else {
                simple_rows_from(ls, cols, i + 1, in_header, rows, second)
            }
        } else if rule_line(t) {
            simple_rows_from(ls, cols, i + 1, in_header, rows, second)
        } else {
            simple_row_html(ls[i], cols, tag_of(in_header)) + simple_rows_from(
                ls,
                cols,
                i + 1,
                in_header,
                if in_header {
                    rows + 1
                } else {
                    rows
                },
                second,
            )
        }
    }
}

/// A block that is no table: one escaped paragraph.
pub open spec fn fallback_paragraph(text: Seq<char>) -> Seq<char> {
    "<p>"@ + escaped(text) + "</p>"@
}

/// The HTML of a simple table. Three borders or more make the rows before
/// the second border a header. A block of fewer than three lines, or
/// without a column, is an escaped paragraph.
pub open spec fn simple_table_html(text: Seq<char>) -> Seq<char> {
    let ls = lines_of(text);
    let cols = column_bounds(trimmed(ls[0]));
    let borders = border_positions(ls, ls.len() as int);
    let has_header = borders.len() >= 3;
    if ls.len() < 3 || cols.len() < 1 {
        fallback_paragraph(text)
    } else {
        "<table class=\"simple-table\">\n"@ + (if has_header {
            "<thead>\n"@
        } else {
            Seq::empty()
        }) + simple_rows_from(ls, cols, 0, has_header, 0, if has_header {
            borders[1]
        } else {
            -1
        }) + (if has_header {
            "</tbody>\n"@
        } else {
            Seq::empty()
        }) + "</table>"@
    }
}

pub(crate) fn paragraph_of(text: &Vec<char>) -> (r: Vec<char>)
    ensures
        r@ == fallback_paragraph(text@),
{
    let mut out = chars_of("<p>");
    let e = escape(text);
    extend(&mut out, &e);
    push_str(&mut out, "</p>");
    out
}

/// Renders a simple table.
pub fn convert_simple_table_text(text: &Vec<char>) -> (r: Vec<char>)
    ensures
        r@ == simple_table_html(text@),
{
    let lines = split_lines(text);
    if lines.len() < 3 {
        return paragraph_of(text);
    }
    let ghost ls = lines_view(lines@);
    assert(ls[0] == lines@[0]@);
    let border = trim(&lines[0]);
    let cols = parse_column_boundaries(&border);
    if cols.len() < 1 {
        return paragraph_of(text);
    }
    let mut count: usize = 0;
    let mut second: usize = 0;
    let mut k: usize = 0;
    while k < lines.len()
        invariant
            k <= lines.len(),
            ls == lines_view(lines@),
            count == border_positions(ls, k as int).len(),
            count <= k,
            count >= 2 ==> second == border_positions(ls, k as int)[1],
        decreases lines.len() - k,
    {
        assert(ls[k as int] == lines@[k as int]@);
        let t = trim(&lines[k]);
        if is_simple_border(&t) {
            if count == 1 {
                second = k;
            }
            count += 1;
        }
        k += 1;
    }
    let has_header = count >= 3;
    let mut out = chars_of("<table class=\"simple-table\">\n");
    push_if(&mut out, has_header, "<thead>\n");
    let ghost head = out@;
    let ghost sec: int = if has_header {
        second as int
    } else {
        -1
    };
    let ghost cv = bounds_view(cols@);
    let mut in_header = has_header;
    let mut rows: usize = 0;
    let mut i: usize = 0;
    while i < lines.len()
        invariant
            i <= lines.len(),
            rows <= i,
            ls == lines_view(lines@),
            cv == bounds_view(cols@),
            forall|j: int| 0 <= j < cols@.len() ==> (#[trigger] cols@[j]).0 < cols@[j].1,
            in_header ==> has_header && sec == second,
            out@ + simple_rows_from(ls, cv, i as int, in_header, rows as int, sec) == head
                + simple_rows_from(ls, cv, 0, has_header, 0, sec),
        decreases lines.len() - i,
    {
        assert(ls[i as int] == lines@[i as int]@);
        let ghost before = out@;
        let t = trim(&lines[i]);
        if is_simple_border(&t) {
            if in_header && i == second && rows > 0 {
                push_str(&mut out, "</thead>\n<tbody>\n");
                proof {
                    lemma_concat_assoc(
                        before,
                        "</thead>\n<tbody>\n"@,
                        simple_rows_from(ls, cv, i + 1, false, rows as int, sec),
                    );
                }
                in_header = false;
            }
        } else if is_dash_separator(&t) {
        } else {
            let row = render_simple_row(
                &lines[i],
                &cols,
                if in_header {
                    "th"
                } else {
                    "td"
                },
            );
            extend(&mut out, &row);
            let ghost next_rows: int = if in_header {
                rows + 1
            } else {
                rows as int
            };
            proof {
                lemma_concat_assoc(
                    before,
                    row@,
                    simple_rows_from(ls, cv, i + 1, in_header, next_rows, sec),
                );
            }
            if in_header {
                rows += 1;
            }
        }
        i += 1;
    }
    assert(out@ + Seq::<char>::empty() =~= out@);
    push_if(&mut out, has_header, "</tbody>\n");
    push_str(&mut out, "</table>");
    out
}

/// Renders a simple table.
pub fn convert_simple_table(text: &str) -> (r: String)
    ensures
        r@ == simple_table_html(text@),
{
    let v = chars_of(text);
    let e = convert_simple_table_text(&v);
    string_of(&e)
}

} // verus!
