//! Tables given as data: comma-separated values, or a list of lists.

use vstd::prelude::*;
use crate::html_utils::{escape, escaped};
use crate::inline::{inline_html, process_inline_text};
use crate::lines::{lines_of, lines_view, push_line, split_lines};
use crate::number::{decimal, decimal_of, parse_number, parsed};
use crate::text::{
    chars_of, copy_range, extend, is_space, is_str, is_whitespace, push_str, string_of, trim,
    trimmed,
};

verus! {

/// The `style` attribute that places a table as `align` asks.
pub open spec fn align_style(align: Option<Seq<char>>) -> Seq<char> {
    match align {
        Some(a) => if a == "center"@ {
            " style=\"margin-left: auto; margin-right: auto;\""@
        } else if a == "left"@ {
            " style=\"margin-right: auto;\""@
        } else if a == "right"@ {
            " style=\"margin-left: auto;\""@
        } else {
            Seq::empty()
        },
        None => Seq::empty(),
    }
}

/// The text that an optional borrowed vector holds.
pub open spec fn text_view(o: Option<&Vec<char>>) -> Option<Seq<char>> {
    match o {
        Some(v) => Some(v@),
        None => None,
    }
}

/// The text that an optional string slice holds.
pub open spec fn str_view(o: Option<&str>) -> Option<Seq<char>> {
    match o {
        Some(v) => Some(v@),
        None => None,
    }
}

pub(crate) fn push_align_style(out: &mut Vec<char>, align: Option<&Vec<char>>)
    ensures
        final(out)@ == old(out)@ + align_style(text_view(align)),
{
    match align {
        Some(a) => {
            if is_str(a, "center") {
                push_str(out, " style=\"margin-left: auto; margin-right: auto;\"");
            } else if is_str(a, "left") {
                push_str(out, " style=\"margin-right: auto;\"");
            } else if is_str(a, "right") {
                push_str(out, " style=\"margin-left: auto;\"");
            } else {
                assert(out@ + Seq::<char>::empty() =~= out@);
            }
        },
        None => {
            assert(out@ + Seq::<char>::empty() =~= out@);
        },
    }
}

/// The caption of a table; none for an empty title.
pub open spec fn caption(title: Seq<char>) -> Seq<char> {
    if title.len() > 0 {
        "<caption>"@ + escaped(title) + "</caption>\n"@
    } else {
        Seq::empty()
    }
}

pub(crate) fn push_caption(out: &mut Vec<char>, title: &Vec<char>)
    ensures
        final(out)@ == old(out)@ + caption(title@),
{
    if title.len() > 0 {
        let mut c = chars_of("<caption>");
        let e = escape(title);
        extend(&mut c, &e);
        push_str(&mut c, "</caption>\n");
        extend(out, &c);
    } else {
        assert(out@ + Seq::<char>::empty() =~= out@);
    }
}

/// The pieces of `s` between the occurrences of `c`, from index `i` on,
/// where the piece being read began at `start`.
pub open spec fn split_scan(s: Seq<char>, c: char, start: int, i: int) -> Seq<Seq<char>>
    decreases s.len() - i,
{
    if i < 0 || i >= s.len() {
        seq![s.subrange(start, s.len() as int)]
    } else if s[i] == c {
        seq![s.subrange(start, i)] + split_scan(s, c, i + 1, i + 1)
    } else {
        split_scan(s, c, start, i + 1)
    }
}

/// The pieces of `s` between the occurrences of `c`.
pub open spec fn split_on(s: Seq<char>, c: char) -> Seq<Seq<char>> {
    split_scan(s, c, 0, 0)
}

fn split_char(v: &Vec<char>, c: char) -> (r: Vec<Vec<char>>)
    ensures
        lines_view(r@) == split_on(v@, c),
{
    let mut out: Vec<Vec<char>> = Vec::new();
    let mut start: usize = 0;
    let mut i: usize = 0;
    assert(lines_view(out@) =~= Seq::<Seq<char>>::empty());
    while i < v.len()
        invariant
            start <= i <= v.len(),
            lines_view(out@) + split_scan(v@, c, start as int, i as int) == split_on(v@, c),
        decreases v.len() - i,
    {
        if v[i] == c {
            let piece = copy_range(v, start, i);
            let ghost before = lines_view(out@);
            let ghost rest = split_scan(v@, c, i + 1, i + 1);
            push_line(&mut out, piece);
            assert(before.push(piece@) + rest =~= before + (seq![piece@] + rest));
            i += 1;
            start = i;
        } else {
            i += 1;
        }
    }
    let piece = copy_range(v, start, v.len());
    let ghost before = lines_view(out@);
    push_line(&mut out, piece);
    assert(before.push(piece@) =~= before + seq![piece@]);
    out
}

/// The words of `s` from index `i` on: the runs of values that are not
/// white space, where `open` is the start of the word being read, or
/// negative outside a word.
pub open spec fn words_scan(s: Seq<char>, i: int, open: int) -> Seq<Seq<char>>
    decreases s.len() - i,
{
    if i < 0 || i >= s.len() {
        if open >= 0 {
            seq![s.subrange(open, s.len() as int)]
        } else {
            Seq::empty()
        }
    } else if !is_space(s[i]) {
        words_scan(s, i + 1, if open >= 0 {
            open
        } else {
            i
        })
    } else if open >= 0 {
        seq![s.subrange(open, i)] + words_scan(s, i + 1, -1)
    } else {
        words_scan(s, i + 1, -1)
    }
}

/// The words of `s`.
pub open spec fn words(s: Seq<char>) -> Seq<Seq<char>> {
    words_scan(s, 0, -1)
}

/// Parts a text into its words.
pub fn split_words(v: &Vec<char>) -> (r: Vec<Vec<char>>)
    ensures
        lines_view(r@) == words(v@),
{
    let mut out: Vec<Vec<char>> = Vec::new();
    let mut i: usize = 0;
    let mut open: Option<usize> = None;
    assert(lines_view(out@) =~= Seq::<Seq<char>>::empty());
    while i < v.len()
        invariant
            i <= v.len(),
            open matches Some(o) ==> o < i,
            lines_view(out@) + words_scan(
                v@,
                i as int,
                match open {
                    Some(o) => o as int,
                    None => -1,
                },
            ) == words(v@),
        decreases v.len() - i,
    {
        if !is_whitespace(v[i]) {
            if open.is_none() {
                open = Some(i);
            }
        } else {
            if let Some(o) = open {
                let piece = copy_range(v, o, i);
                let ghost before = lines_view(out@);
                let ghost rest = words_scan(v@, i + 1, -1);
                push_line(&mut out, piece);
                assert(before.push(piece@) + rest =~= before + (seq![piece@] + rest));
            }
            open = None;
        }
        i += 1;
    }
    let ghost before = lines_view(out@);
    if let Some(o) = open {
        let piece = copy_range(v, o, v.len());
        push_line(&mut out, piece);
        assert(before.push(piece@) =~= before + seq![piece@]);
    } else {
        assert(before + Seq::<Seq<char>>::empty() =~= before);
    }
    out
}

/// The width that a part names: a whole number of at most ten digits'
/// worth, written in decimal.
pub open spec fn width_value(part: Seq<char>) -> Option<int> {
    parsed(part, 10, 0xFFFF_FFFF)
}

/// The sum of the widths that the first `n` parts name.
pub open spec fn widths_total(parts: Seq<Seq<char>>, n: int) -> int
    decreases n,
{
    if n <= 0 {
        0
    } else {
        widths_total(parts, n - 1) + match width_value(parts[n - 1]) {
            Some(v) => v,
            None => 0,
        }
    }
}

/// The share of `v` in `total` in tenths of a percent, rounded to the
/// nearest; a share that lies half-way between two tenths is rounded to the
/// even one.
pub open spec fn percent_tenths(v: int, total: int) -> int {
    let whole = (v * 1000) / total;
    let rest = (v * 1000) % total;
    if 2 * rest > total || (2 * rest == total && whole % 2 == 1) {
        whole + 1
    } else {
        whole
    }
}

/// A share written as a percentage with one decimal.
pub open spec fn percent_text(v: int, total: int) -> Seq<char> {
    decimal((percent_tenths(v, total) / 10) as nat) + "."@ + decimal(
        (percent_tenths(v, total) % 10) as nat,
    )
}

/// The width hint of one part; none for a part that names no width, and none
/// where the widths add up to nothing.
pub open spec fn col_hint(part: Seq<char>, total: int) -> Seq<char> {
    match width_value(part) {
        Some(v) => if total > 0 {
            "<col style=\"width: "@ + percent_text(v, total) + "%\">\n"@
        } else {
            Seq::empty()
        },
        None => Seq::empty(),
    }
}

/// The width hints of the first `n` parts.
pub open spec fn col_hints_upto(parts: Seq<Seq<char>>, total: int, n: int) -> Seq<char>
    decreases n,
{
    if n <= 0 {
        Seq::empty()
    } else {
        col_hints_upto(parts, total, n - 1) + col_hint(parts[n - 1], total)
    }
}

/// The column group that gives each column its share of the width.
pub open spec fn colgroup(parts: Seq<Seq<char>>) -> Seq<char> {
    "<colgroup>\n"@ + col_hints_upto(
        parts,
        widths_total(parts, parts.len() as int),
        parts.len() as int,
    ) + "</colgroup>\n"@
}

pub(crate) fn render_colgroup(parts: &Vec<Vec<char>>) -> (r: Vec<char>)
    ensures
        r@ == colgroup(lines_view(parts@)),
{
    let ghost ps = lines_view(parts@);
    let mut total: u128 = 0;
    let mut k: usize = 0;
    while k < parts.len()
        invariant
            k <= parts.len(),
            ps == lines_view(parts@),
            total == widths_total(ps, k as int),
            total <= k * 0xFFFF_FFFF,
        decreases parts.len() - k,
    {
        assert(ps[k as int] == parts@[k as int]@);
        if let Some(v) = parse_number(&parts[k], 10, 0xFFFF_FFFF) {
            total = total + v as u128;
        }
        k += 1;
    }
    let mut hints: Vec<char> = Vec::new();
    let mut k: usize = 0;
    while k < parts.len()
        invariant
            k <= parts.len(),
            ps == lines_view(parts@),
            hints@ == col_hints_upto(ps, total as int, k as int),
            total <= parts.len() * 0xFFFF_FFFF,
        decreases parts.len() - k,
    {
        assert(ps[k as int] == parts@[k as int]@);
        let ghost before = hints@;
        match parse_number(&parts[k], 10, 0xFFFF_FFFF) {
            Some(v) => {
                if total > 0 {
                    let scaled: u128 = v as u128 * 1000;
                    let whole: u128 = scaled / total;
                    let rest: u128 = scaled % total;
                    let tenths: u128 = if 2 * rest > total || (2 * rest == total && whole % 2
                        == 1) {
                        whole + 1
                    } else {
                        whole
                    };
                    let mut hint = chars_of("<col style=\"width: ");
                    let mut pct = decimal_of(tenths / 10);
                    push_str(&mut pct, ".");
                    let frac = decimal_of(tenths % 10);
                    extend(&mut pct, &frac);
                    extend(&mut hint, &pct);
                    push_str(&mut hint, "%\">\n");
                    extend(&mut hints, &hint);
                } else {
                    assert(before + Seq::<char>::empty() =~= before);
                }
            },
            None => {
                assert(before + Seq::<char>::empty() =~= before);
            },
        }
        k += 1;
    }
    let mut out = chars_of("<colgroup>\n");
    extend(&mut out, &hints);
    push_str(&mut out, "</colgroup>\n");
    out
}

/// The cells of a line of comma-separated values from index `i` on, where
/// `cur` is what has been read of the cell and `quoted` says whether the scan
/// stands inside double quotes. Quotes are dropped; a comma inside quotes
/// belongs to the cell.
pub open spec fn csv_scan(s: Seq<char>, i: int, cur: Seq<char>, quoted: bool) -> Seq<Seq<char>>
    decreases s.len() - i,
{
    if i < 0 || i >= s.len() {
        seq![cur]
    } else if s[i] == '"' {
        csv_scan(s, i + 1, cur, !quoted)
    } else if s[i] == ',' && !quoted {
        seq![cur] + csv_scan(s, i + 1, Seq::empty(), quoted)
    } else {
        csv_scan(s, i + 1, cur.push(s[i]), quoted)
    }
}

/// The cells of a line of comma-separated values.
pub open spec fn csv_cells(line: Seq<char>) -> Seq<Seq<char>> {
    csv_scan(line, 0, Seq::empty(), false)
}

/// The texts that a vector of strings holds.
pub open spec fn strings_view(v: Seq<String>) -> Seq<Seq<char>> {
    Seq::new(v.len(), |i: int| v[i]@)
}

/// Parts a line of comma-separated values into its cells.
pub fn parse_csv_line(line: &str) -> (r: Vec<String>)
    ensures
        strings_view(r@) == csv_cells(line@),
{
    let v = chars_of(line);
    let cells = parse_csv_cells(&v);
    let mut out: Vec<String> = Vec::new();
    let mut k: usize = 0;
    while k < cells.len()
        invariant
            k <= cells.len(),
            out.len() == k,
            forall|j: int| 0 <= j < k ==> (#[trigger] out@[j])@ == cells@[j]@,
        decreases cells.len() - k,
    {
        out.push(string_of(&cells[k]));
        k += 1;
    }
    assert(strings_view(out@) =~= lines_view(cells@));
    out
}

/// Parts a line of comma-separated values into its cells.
pub fn parse_csv_cells(line: &Vec<char>) -> (r: Vec<Vec<char>>)
    ensures
        lines_view(r@) == csv_cells(line@),
{
    let mut cells: Vec<Vec<char>> = Vec::new();
    let mut cur: Vec<char> = Vec::new();
    let mut quoted = false;
    let mut i: usize = 0;
    assert(lines_view(cells@) =~= Seq::<Seq<char>>::empty());
    while i < line.len()
        invariant
            i <= line.len(),
            lines_view(cells@) + csv_scan(line@, i as int, cur@, quoted) == csv_cells(line@),
        decreases line.len() - i,
    {
        let c = line[i];
        if c == '"' {
            quoted = !quoted;
        } else if c == ',' && !quoted {
            let ghost before = lines_view(cells@);
            let ghost rest = csv_scan(line@, i + 1, Seq::empty(), quoted);
            let ghost done = cur@;
            push_line(&mut cells, cur);
            assert(before.push(done) + rest =~= before + (seq![done] + rest));
            cur = Vec::new();
        } else {
            cur.push(c);
        }
        i += 1;
    }
    let ghost before = lines_view(cells@);
    let ghost done = cur@;
    push_line(&mut cells, cur);
    assert(before.push(done) =~= before + seq![done]);
    cells
}

/// The elements of the first `n` cells of a row of values.
pub open spec fn data_cells_upto(cells: Seq<Seq<char>>, tag: Seq<char>, n: int) -> Seq<char>
    decreases n,
{
    if n <= 0 {
        Seq::empty()
    } else {
        data_cells_upto(cells, tag, n - 1) + "<"@ + tag + ">"@ + inline_html(
            trimmed(cells[n - 1]),
        ) + "</"@ + tag + ">"@
    }
}

fn render_data_cells(cells: &Vec<Vec<char>>, tag: &str) -> (r: Vec<char>)
    ensures
        r@ == data_cells_upto(lines_view(cells@), tag@, cells.len() as int),
{
    let ghost cs = lines_view(cells@);
    let mut out: Vec<char> = Vec::new();
    let mut k: usize = 0;
    while k < cells.len()
        invariant
            k <= cells.len(),
            cs == lines_view(cells@),
            out@ == data_cells_upto(cs, tag@, k as int),
        decreases cells.len() - k,
    {
        assert(cs[k as int] == cells@[k as int]@);
        let t = trim(&cells[k]);
        let h = process_inline_text(&t);
        push_str(&mut out, "<");
        push_str(&mut out, tag);
        push_str(&mut out, ">");
        extend(&mut out, &h);
        push_str(&mut out, "</");
        push_str(&mut out, tag);
        push_str(&mut out, ">");
        k += 1;
    }
    out
}

/// The row that a line of values makes; none for a blank line.
pub open spec fn csv_row(line: Seq<char>) -> Seq<char> {
    let t = trimmed(line);
    if t.len() == 0 {
        Seq::empty()
    } else {
        "<tr>"@ + data_cells_upto(csv_cells(t), "td"@, csv_cells(t).len() as int) + "</tr>\n"@
    }
}

/// The rows of the first `n` lines.
pub open spec fn csv_rows_upto(ls: Seq<Seq<char>>, n: int) -> Seq<char>
    decreases n,
{
    if n <= 0 {
        Seq::empty()
    } else {
        csv_rows_upto(ls, n - 1) + csv_row(ls[n - 1])
    }
}

/// The header row, where one is given.
pub open spec fn csv_header(headers: Option<Seq<char>>) -> Seq<char> {
    match headers {
        Some(h) => "<thead>\n<tr>"@ + data_cells_upto(
            csv_cells(h),
            "th"@,
            csv_cells(h).len() as int,
        ) + "</tr>\n</thead>\n"@,
        None => Seq::empty(),
    }
}

/// The shares of the columns, where widths are given with commas between them.
pub open spec fn csv_colgroup(widths: Option<Seq<char>>) -> Seq<char> {
    match widths {
        Some(w) => colgroup(
            Seq::new(split_on(w, ',').len(), |i: int| trimmed(split_on(w, ',')[i])),
        ),
        None => Seq::empty(),
    }
}

/// The HTML of a table given as comma-separated values: the caption, the
/// shares of the columns, the header, and one row for each line that is
/// not blank.
pub open spec fn csv_table_html(
    title: Seq<char>,
    headers: Option<Seq<char>>,
    widths: Option<Seq<char>>,
    align: Option<Seq<char>>,
    content: Seq<char>,
) -> Seq<char> {
    "<table class=\"csv-table\""@ + align_style(align) + ">\n"@ + caption(title) + csv_colgroup(
        widths,
    ) + csv_header(headers) + "<tbody>\n"@ + csv_rows_upto(
        lines_of(content),
        lines_of(content).len() as int,
    ) + "</tbody>\n</table>"@
}

/// Renders a table given as comma-separated values.
pub fn convert_csv_table_text(
    title: &Vec<char>,
    headers: Option<&Vec<char>>,
    widths: Option<&Vec<char>>,
    align: Option<&Vec<char>>,
    content: &Vec<char>,
) -> (r: Vec<char>)
    ensures
        r@ == csv_table_html(
            title@,
            text_view(headers),
            text_view(widths),
            text_view(align),
            content@,
        ),
{
    let mut out = chars_of("<table class=\"csv-table\"");
    push_align_style(&mut out, align);
    push_str(&mut out, ">\n");
    push_caption(&mut out, title);
    match widths {
        Some(w) => {
            let pieces = split_char(w, ',');
            let ghost ps = lines_view(pieces@);
            let mut parts: Vec<Vec<char>> = Vec::new();
            let mut k: usize = 0;
            assert(lines_view(parts@) =~= Seq::new(0, |i: int| trimmed(ps[i])));
            while k < pieces.len()
                invariant
                    k <= pieces.len(),
                    ps == lines_view(pieces@),
                    lines_view(parts@) == Seq::new(k as nat, |i: int| trimmed(ps[i])),
                decreases pieces.len() - k,
            {
                assert(ps[k as int] == pieces@[k as int]@);
                push_line(&mut parts, trim(&pieces[k]));
                k += 1;
                assert(lines_view(parts@) =~= Seq::new(k as nat, |i: int| trimmed(ps[i])));
            }
            let g = render_colgroup(&parts);
            extend(&mut out, &g);
        },
        None => {
            assert(out@ + Seq::<char>::empty() =~= out@);
        },
    }
    match headers {
        Some(h) => {
            let cells = parse_csv_cells(h);
            let mut head = chars_of("<thead>\n<tr>");
            let c = render_data_cells(&cells, "th");
            extend(&mut head, &c);
            push_str(&mut head, "</tr>\n</thead>\n");
            extend(&mut out, &head);
        },
        None => {
            assert(out@ + Seq::<char>::empty() =~= out@);
        },
    }
    push_str(&mut out, "<tbody>\n");
    let lines = split_lines(content);
    let ghost ls = lines_view(lines@);
    let mut rows: Vec<char> = Vec::new();
    let mut k: usize = 0;
    while k < lines.len()
        invariant
            k <= lines.len(),
            ls == lines_view(lines@),
            rows@ == csv_rows_upto(ls, k as int),
        decreases lines.len() - k,
    {
        assert(ls[k as int] == lines@[k as int]@);
        let t = trim(&lines[k]);
        if t.len() == 0 {
            assert(rows@ + Seq::<char>::empty() =~= rows@);
        } else {
            let cells = parse_csv_cells(&t);
            let mut row = chars_of("<tr>");
            let c = render_data_cells(&cells, "td");
            extend(&mut row, &c);
            push_str(&mut row, "</tr>\n");
            extend(&mut rows, &row);
        }
        k += 1;
    }
    extend(&mut out, &rows);
    push_str(&mut out, "</tbody>\n</table>");
    out
}

/// Renders a table given as comma-separated values.
pub fn convert_csv_table(
    title: &str,
    headers: Option<&str>,
    widths: Option<&str>,
    align: Option<&str>,
    content: &str,
) -> (r: String)
    ensures
        r@ == csv_table_html(
            title@,
            str_view(headers),
            str_view(widths),
            str_view(align),
            content@,
        ),
{
    let t = chars_of(title);
    let h = match headers {
        Some(s) => Some(chars_of(s)),
        None => None,
    };
    let w = match widths {
        Some(s) => Some(chars_of(s)),
        None => None,
    };
    let a = match align {
        Some(s) => Some(chars_of(s)),
        None => None,
    };
    let c = chars_of(content);
    let e = convert_csv_table_text(&t, h.as_ref(), w.as_ref(), a.as_ref(), &c);
    string_of(&e)
}

} // verus!
