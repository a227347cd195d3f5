//! Tables given as a list of lists: `* -` begins a row, `-` begins a cell.

use vstd::prelude::*;
use crate::inline::{inline_html, process_inline_text};
use crate::lines::{lines_of, lines_view, push_line, split_lines};
use crate::lists::continued;
use crate::search::{has_prefix, matches_at, starts_with};
use crate::tables::data::{
    align_style, caption, colgroup, push_align_style, push_caption, render_colgroup, split_words,
    str_view, text_view, words,
};
use crate::text::{chars_of, copy_text, extend, push_if, push_str, skip, string_of, trim, trimmed};

verus! {

/// `s` without every copy of `p` that it begins with.
pub open spec fn without_leading(s: Seq<char>, p: Seq<char>) -> Seq<char>
    decreases s.len(),
{
    if p.len() > 0 && has_prefix(s, p) {
        without_leading(s.subrange(p.len() as int, s.len() as int), p)
    } else {
        s
    }
}

pub(crate) fn trim_start_matches(v: &Vec<char>, p: &str) -> (r: Vec<char>)
    ensures
        r@ == without_leading(v@, p@),
{
    let q = chars_of(p);
    if q.len() == 0 {
        return copy_text(v);
    }
    let mut start: usize = 0;
    assert(v@.subrange(0, v.len() as int) =~= v@);
    while matches_at(v, &q, start)
        invariant
            start <= v.len(),
            q@ == p@,
            q.len() > 0,
            without_leading(v@.subrange(start as int, v.len() as int), p@) == without_leading(
                v@,
                p@,
            ),
        decreases v.len() - start,
    {
        let ghost s = v@.subrange(start as int, v.len() as int);
        assert(s.subrange(0, q.len() as int) =~= v@.subrange(start as int, start + q.len()));
        assert(has_prefix(s, p@));
        assert(s.subrange(q.len() as int, s.len() as int) =~= v@.subrange(
            start + q.len(),
            v.len() as int,
        ));
        start += q.len();
    }
    proof {
        let s = v@.subrange(start as int, v.len() as int);
        if has_prefix(s, p@) {
            assert(s.subrange(0, q.len() as int) =~= v@.subrange(start as int, start + q.len()));
            assert(false);
        }
    }
    skip(v, start)
}

/// A row with the cell that was being read added to it; an empty cell
/// is not kept.
pub open spec fn row_closed(row: Seq<Seq<char>>, cell: Seq<char>) -> Seq<Seq<char>> {
    if cell.len() > 0 {
        row.push(cell)
    } else {
        row
    }
}

/// The first cell of a row: what follows `* -` on its line.
pub open spec fn first_cell(t: Seq<char>) -> Seq<char> {
    trimmed(without_leading(without_leading(t, "* -"@), "* - "@))
}

/// The rows of the lines from `i` on, where `row` holds the finished cells
/// of the row being read, `cell` what has been read of its next cell, and
/// `in_row` whether a row has begun.
pub open spec fn list_rows_scan(
    ls: Seq<Seq<char>>,
    i: int,
    row: Seq<Seq<char>>,
    cell: Seq<char>,
    in_row: bool,
) -> Seq<Seq<Seq<char>>>
    decreases ls.len() - i,
{
    if i < 0 || i >= ls.len() {
        if in_row {
            seq![row_closed(row, cell)]
        } else {
            Seq::empty()
        }
    } else {
        let t = trimmed(ls[i]);
        if has_prefix(t, "* -"@) {
            (if in_row {
                seq![row_closed(row, cell)]
            } else {
                Seq::empty()
            }) + list_rows_scan(ls, i + 1, Seq::empty(), first_cell(t), true)
        } else if has_prefix(t, "- "@) && in_row {
            list_rows_scan(
                ls,
                i + 1,
                row_closed(row, cell),
                trimmed(t.subrange(2, t.len() as int)),
                true,
            )
        } else if in_row && t.len() > 0 {
            list_rows_scan(ls, i + 1, row, continued(cell, t), true)
        } else {
            list_rows_scan(ls, i + 1, row, cell, in_row)
        }
    }
}

/// The rows of a list table.
pub open spec fn list_rows(content: Seq<char>) -> Seq<Seq<Seq<char>>> {
    list_rows_scan(lines_of(content), 0, Seq::empty(), Seq::empty(), false)
}

/// The rows of texts that a vector of rows holds.
pub open spec fn table_view(rows: Seq<Vec<Vec<char>>>) -> Seq<Seq<Seq<char>>> {
    Seq::new(rows.len(), |r: int| lines_view(rows[r]@))
}

fn close_row(row: &mut Vec<Vec<char>>, cell: Vec<char>)
    ensures
        lines_view(final(row)@) == row_closed(lines_view(old(row)@), cell@),
{
    if cell.len() > 0 {
        push_line(row, cell);
    }
}

fn push_row(rows: &mut Vec<Vec<Vec<char>>>, row: Vec<Vec<char>>)
    ensures
        table_view(final(rows)@) == table_view(old(rows)@).push(lines_view(row@)),
{
    rows.push(row);
    assert(table_view(rows@) =~= table_view(old(rows)@).push(lines_view(row@)));
}

/// Reads the rows of a list table.
pub fn parse_list_table_rows(content: &Vec<char>) -> (r: Vec<Vec<Vec<char>>>)
    ensures
        table_view(r@) == list_rows(content@),
{
    let lines = split_lines(content);
    let ghost ls = lines_view(lines@);
    let mut rows: Vec<Vec<Vec<char>>> = Vec::new();
    let mut row: Vec<Vec<char>> = Vec::new();
    let mut cell: Vec<char> = Vec::new();
    let mut in_row = false;
    let mut i: usize = 0;
    assert(table_view(rows@) =~= Seq::empty());
    assert(lines_view(row@) =~= Seq::empty());
    while i < lines.len()
        invariant
            i <= lines.len(),
            ls == lines_view(lines@),
            table_view(rows@) + list_rows_scan(ls, i as int, lines_view(row@), cell@, in_row)
                == list_rows(content@),
        decreases lines.len() - i,
    {
        assert(ls[i as int] == lines@[i as int]@);
        let t = trim(&lines[i]);
        if starts_with(&t, "* -") {
            let ghost before = table_view(rows@);
            let once = trim_start_matches(&t, "* -");
            let twice = trim_start_matches(&once, "* - ");
            let first = trim(&twice);
            let ghost rest = list_rows_scan(ls, i + 1, Seq::empty(), first@, true);
            if in_row {
                close_row(&mut row, cell);
                let ghost done = lines_view(row@);
                push_row(&mut rows, row);
                assert(before.push(done) + rest =~= before + (seq![done] + rest));
            } else {
                assert(before + (Seq::<Seq<Seq<char>>>::empty() + rest) =~= before + rest);
            }
            row = Vec::new();
            assert(lines_view(row@) =~= Seq::empty());
            cell = first;
            in_row = true;
        } else if starts_with(&t, "- ") && in_row {
            proof {
                reveal_strlit("- ");
            }
            close_row(&mut row, cell);
            let rest = skip(&t, 2);
            cell = trim(&rest);
        } else if in_row && t.len() > 0 {
            if cell.len() > 0 {
                push_str(&mut cell, " ");
            }
            extend(&mut cell, &t);
        }
        i += 1;
    }
    let ghost before = table_view(rows@);
    if in_row {
        close_row(&mut row, cell);
        let ghost done = lines_view(row@);
        push_row(&mut rows, row);
        assert(before.push(done) =~= before + seq![done]);
    } else {
        assert(before + Seq::<Seq<Seq<char>>>::empty() =~= before);
    }
    rows
}

/// The element of the cell in column `c` of row `r`: a header cell in the
/// header rows and in the stub columns.
pub open spec fn list_cell(cell: Seq<char>, in_header: bool, in_stub: bool) -> Seq<char> {
    let tag = if in_header || in_stub {
        "th"@
    } else {
        "td"@
    };
    "<"@ + tag + (if in_stub {
        " class=\"stub\""@
    } else {
        Seq::empty()
    }) + ">"@ + inline_html(trimmed(cell)) + "</"@ + tag + ">"@
}

/// The elements of the first `n` cells of a row.
pub open spec fn list_cells_upto(row: Seq<Seq<char>>, in_header: bool, stubs: int, n: int) -> Seq<
    char,
>
    decreases n,
{
    if n <= 0 {
        Seq::empty()
    } else {
        list_cells_upto(row, in_header, stubs, n - 1) + list_cell(
            row[n - 1],
            in_header,
            n - 1 < stubs,
        )
    }
}

/// The HTML of the first `n` rows.
pub open spec fn list_rows_upto(rows: Seq<Seq<Seq<char>>>, header_rows: int, stubs: int, n: int)
    -> Seq<char>
    decreases n,
{
    if n <= 0 {
        Seq::empty()
    } else {
        list_rows_upto(rows, header_rows, stubs, n - 1) + (if n - 1 == 0 && header_rows > 0 {
            "<thead>\n"@
        } else {
            Seq::empty()
        }) + (if n - 1 == header_rows && header_rows > 0 {
            "</thead>\n<tbody>\n"@
        } else {
            Seq::empty()
        }) + "<tr>"@ + list_cells_upto(
            rows[n - 1],
            n - 1 < header_rows,
            stubs,
            rows[n - 1].len() as int,
        ) + "</tr>\n"@
    }
}

/// The shares of the columns, where widths are given as words.
pub open spec fn list_colgroup(widths: Option<Seq<char>>) -> Seq<char> {
    match widths {
        Some(w) => colgroup(words(w)),
        None => Seq::empty(),
    }
}

/// The HTML of a list table: the caption, the shares of the columns, and
/// the rows, of which the first `header_rows` are the header and in which
/// the first `stub_columns` cells of each row are header cells.
pub open spec fn list_table_html(
    title: Seq<char>,
    header_rows: int,
    stub_columns: int,
    widths: Option<Seq<char>>,
    align: Option<Seq<char>>,
    content: Seq<char>,
) -> Seq<char> {
    let rows = list_rows(content);
    "<table class=\"list-table\""@ + align_style(align) + ">\n"@ + caption(title) + list_colgroup(
        widths,
    ) + list_rows_upto(rows, header_rows, stub_columns, rows.len() as int) + (if header_rows > 0
        && rows.len() > 0 {
        "</tbody>\n"@
    } else {
        Seq::empty()
    }) + "</table>"@
}

fn render_list_cell(cell: &Vec<char>, in_header: bool, in_stub: bool) -> (r: Vec<char>)
    ensures
        r@ == list_cell(cell@, in_header, in_stub),
{
    let tag = if in_header || in_stub {
        "th"
    } else {
        "td"
    };
    let mut out = chars_of("<");
    push_str(&mut out, tag);
    push_if(&mut out, in_stub, " class=\"stub\"");
    push_str(&mut out, ">");
    let t = trim(cell);
    let h = process_inline_text(&t);
    extend(&mut out, &h);
    push_str(&mut out, "</");
    push_str(&mut out, tag);
    push_str(&mut out, ">");
    out
}

/// Renders a list table.
pub fn convert_list_table_text(
    title: &Vec<char>,
    header_rows: usize,
    stub_columns: usize,
    widths: Option<&Vec<char>>,
    align: Option<&Vec<char>>,
    content: &Vec<char>,
) -> (r: Vec<char>)
    ensures
        r@ == list_table_html(
            title@,
            header_rows as int,
            stub_columns as int,
            text_view(widths),
            text_view(align),
            content@,
        ),
{
    let mut out = chars_of("<table class=\"list-table\"");
    push_align_style(&mut out, align);
    push_str(&mut out, ">\n");
    push_caption(&mut out, title);
    match widths {
        Some(w) => {
            let parts = split_words(w);
            let g = render_colgroup(&parts);
            extend(&mut out, &g);
        },
        None => {
            assert(out@ + Seq::<char>::empty() =~= out@);
        },
    }
    let rows = parse_list_table_rows(content);
    let ghost rv = table_view(rows@);
    let mut body: Vec<char> = Vec::new();
    let mut r: usize = 0;
    while r < rows.len()
        invariant
            r <= rows.len(),
            rv == table_view(rows@),
            body@ == list_rows_upto(rv, header_rows as int, stub_columns as int, r as int),
        decreases rows.len() - r,
    {
        assert(rv[r as int] == lines_view(rows@[r as int]@));
        push_if(&mut body, r == 0 && header_rows > 0, "<thead>\n");
        push_if(&mut body, r == header_rows && header_rows > 0, "</thead>\n<tbody>\n");
        push_str(&mut body, "<tr>");
        let row = &rows[r];
        let ghost cells_view = lines_view(row@);
        let mut cells: Vec<char> = Vec::new();
        let mut c: usize = 0;
        while c < row.len()
            invariant
                c <= row.len(),
                cells_view == lines_view(row@),
                cells@ == list_cells_upto(
                    cells_view,
                    r < header_rows,
                    stub_columns as int,
                    c as int,
                ),
            decreases row.len() - c,
        {
            assert(cells_view[c as int] == row@[c as int]@);
            let h = render_list_cell(&row[c], r < header_rows, c < stub_columns);
            extend(&mut cells, &h);
            c += 1;
        }
        extend(&mut body, &cells);
        push_str(&mut body, "</tr>\n");
        r += 1;
    }
    extend(&mut out, &body);
    push_if(&mut out, header_rows > 0 && rows.len() > 0, "</tbody>\n");
    push_str(&mut out, "</table>");
    out
}

/// Renders a list table.
pub fn convert_list_table(
    title: &str,
    header_rows: usize,
    stub_columns: usize,
    widths: Option<&str>,
    align: Option<&str>,
    content: &str,
) -> (r: String)
    ensures
        r@ == list_table_html(
            title@,
            header_rows as int,
            stub_columns as int,
            str_view(widths),
            str_view(align),
            content@,
        ),
{
    let t = chars_of(title);
    let w = match widths {
        Some(s) => Some(chars_of(s)),
        None => None,
    };
    let a = match align {
        Some(s) => Some(chars_of(s)),
        None => None,
    };
    let c = chars_of(content);
    let e = convert_list_table_text(&t, header_rows, stub_columns, w.as_ref(), a.as_ref(), &c);
    string_of(&e)
}

} // verus!
