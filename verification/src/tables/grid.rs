//! Grid tables: columns are the `+` of the first border; a missing `+`
//! joins columns, a missing rule under a cell joins rows.

use vstd::prelude::*;
use crate::html_utils::{dedent_text, dedented, escape, escaped};
use crate::inline::{inline_html, process_inline_text};
use crate::lines::{
    join_between, join_lines, join_range, joined, lines_of, lines_view, push_line, split_lines,
};
use crate::number::{decimal, decimal_of};
use crate::search::{
    begins_with_char, contains_char, ends_with_char, first_is, has_char, has_prefix, last_is, rfind,
    rfind_str, starts_with,
};
use crate::tables::simple::{fallback_paragraph, paragraph_of};
use crate::text::{
    blank, chars_of, copy_range, extend, is_blank, push_if, push_str, skip, string_of, trim,
    trim_end_char, trimmed, without_trailing,
};

verus! {

/// One cell of a grid table.
pub struct TableCell {
    pub content: Vec<char>,
    /// The number of columns that the cell spans, at least one.
    pub colspan: usize,
    /// The number of rows that the cell spans, at least one.
    pub rowspan: usize,
    /// Whether a cell of the row above spans more than one row and occupies
    /// the column at which this cell begins, so that this cell is not
    /// written.
    pub covered: bool,
}

/// A cell of a grid table over mathematical values.
pub struct CellView {
    pub content: Seq<char>,
    pub colspan: int,
    pub rowspan: int,
    pub covered: bool,
}

impl View for TableCell {
    type V = CellView;

    open spec fn view(&self) -> CellView {
        CellView {
            content: self.content@,
            colspan: self.colspan as int,
            rowspan: self.rowspan as int,
            covered: self.covered,
        }
    }
}

/// The cells that a row holds.
pub open spec fn row_view(row: Seq<TableCell>) -> Seq<CellView> {
    Seq::new(row.len(), |c: int| row[c]@)
}

/// The rows that a vector of rows holds.
pub open spec fn rows_view(rows: Seq<Vec<TableCell>>) -> Seq<Seq<CellView>> {
    Seq::new(rows.len(), |r: int| row_view(rows[r]@))
}

/// Whether a block is a grid table: at least three lines, the first of
/// which runs from `+` to `+` with `-` or `=` in it.
pub open spec fn grid_table(text: Seq<char>) -> bool {
    let ls = lines_of(text);
    let first = trimmed(ls[0]);
    ls.len() >= 3 && first_is(first, '+') && last_is(first, '+') && (has_char(first, '-')
        || has_char(first, '='))
}

/// Whether a block is a grid table.
pub fn is_grid_table_text(text: &Vec<char>) -> (b: bool)
    ensures
        b == grid_table(text@),
{
    let lines = split_lines(text);
    if lines.len() < 3 {
        return false;
    }
    assert(lines_view(lines@)[0] == lines@[0]@);
    let first = trim(&lines[0]);
    begins_with_char(&first, '+') && ends_with_char(&first, '+') && (contains_char(&first, '-')
        || contains_char(&first, '='))
}

/// Whether a block is a grid table.
pub fn is_grid_table(text: &str) -> (b: bool)
    ensures
        b == grid_table(text@),
{
    let v = chars_of(text);
    is_grid_table_text(&v)
}

/// The indices below `n` at which `s` holds `+`.
pub open spec fn plus_positions(s: Seq<char>, n: int) -> Seq<int>
    decreases n,
{
    if n <= 0 {
        Seq::empty()
    } else if s[n - 1] == '+' {
        plus_positions(s, n - 1).push(n - 1)
    } else {
        plus_positions(s, n - 1)
    }
}

/// The columns of a grid table: the indices of `+` on its first border.
pub open spec fn grid_columns(border: Seq<char>) -> Seq<int> {
    plus_positions(border, border.len() as int)
}

/// Indices as mathematical integers.
pub open spec fn positions_view(v: Seq<usize>) -> Seq<int> {
    Seq::new(v.len(), |k: int| v[k] as int)
}

fn parse_grid_columns(border: &Vec<char>) -> (r: Vec<usize>)
    ensures
        positions_view(r@) == grid_columns(border@),
        forall|k: int| 0 <= k < r@.len() ==> (#[trigger] r@[k]) < border.len(),
{
    let mut out: Vec<usize> = Vec::new();
    let mut i: usize = 0;
    assert(positions_view(out@) =~= Seq::empty());
    while i < border.len()
        invariant
            i <= border.len(),
            positions_view(out@) == plus_positions(border@, i as int),
            forall|k: int| 0 <= k < out@.len() ==> (#[trigger] out@[k]) < border.len(),
        decreases border.len() - i,
    {
        if border[i] == '+' {
            let ghost before = positions_view(out@);
            out.push(i);
            assert(positions_view(out@) =~= before.push(i as int));
        }
        i += 1;
    }
    out
}

/// Whether every value of `s` is `+`, `-`, `=` or a space.
pub open spec fn only_border(s: Seq<char>) -> bool {
    forall|i: int|
        0 <= i < s.len() ==> (#[trigger] s[i]) == '+' || s[i] == '-' || s[i] == '=' || s[i] == ' '
}

/// A border of a grid table: from `+` to `+`, made of `+`, `-`, `=` and
/// spaces.
pub open spec fn grid_border(t: Seq<char>) -> bool {
    first_is(t, '+') && last_is(t, '+') && only_border(t)
}

fn is_grid_border(t: &Vec<char>) -> (b: bool)
    ensures
        b == grid_border(t@),
{
    if !(begins_with_char(t, '+') && ends_with_char(t, '+')) {
        return false;
    }
    let mut i: usize = 0;
    while i < t.len()
        invariant
            i <= t.len(),
            forall|j: int|
                0 <= j < i ==> (#[trigger] t@[j]) == '+' || t@[j] == '-' || t@[j] == '=' || t@[j]
                    == ' ',
        decreases t.len() - i,
    {
        if t[i] != '+' && t[i] != '-' && t[i] != '=' && t[i] != ' ' {
            return false;
        }
        i += 1;
    }
    true
}

/// The indices of the borders among the first `n` lines.
pub open spec fn border_indices(ls: Seq<Seq<char>>, n: int) -> Seq<int>
    decreases n,
{
    if n <= 0 {
        Seq::empty()
    } else if grid_border(trimmed(ls[n - 1])) {
        border_indices(ls, n - 1).push(n - 1)
    } else {
        border_indices(ls, n - 1)
    }
}

fn find_borders(lines: &Vec<Vec<char>>) -> (r: Vec<usize>)
    ensures
        positions_view(r@) == border_indices(lines_view(lines@), lines.len() as int),
        forall|k: int| 0 <= k < r@.len() ==> (#[trigger] r@[k]) < lines.len(),
        forall|j: int, k: int| 0 <= j < k < r@.len() ==> r@[j] < r@[k],
{
    let mut out: Vec<usize> = Vec::new();
    let mut i: usize = 0;
    let ghost ls = lines_view(lines@);
    assert(positions_view(out@) =~= Seq::empty());
    while i < lines.len()
        invariant
            i <= lines.len(),
            ls == lines_view(lines@),
            positions_view(out@) == border_indices(ls, i as int),
            forall|k: int| 0 <= k < out@.len() ==> (#[trigger] out@[k]) < i,
            forall|j: int, k: int| 0 <= j < k < out@.len() ==> out@[j] < out@[k],
        decreases lines.len() - i,
    {
        assert(ls[i as int] == lines@[i as int]@);
        let t = trim(&lines[i]);
        if is_grid_border(&t) {
            let ghost before = positions_view(out@);
            out.push(i);
            assert(positions_view(out@) =~= before.push(i as int));
        }
        i += 1;
    }
    out
}

/// Whether `line` holds `+` at index `pos`.
pub open spec fn plus_at(line: Seq<char>, pos: int) -> bool {
    0 <= pos < line.len() && line[pos] == '+'
}

/// The first column at or after `c` whose right edge is a `+` on the
/// border.
pub open spec fn next_joint(border: Seq<char>, cols: Seq<int>, c: int) -> Option<int>
    decreases cols.len() - c,
{
    if c < 0 || c + 1 >= cols.len() {
        None
    } else if plus_at(border, cols[c + 1]) {
        Some(c)
    } else {
        next_joint(border, cols, c + 1)
    }
}

/// The number of columns that the cell at column `col` spans: one where the
/// border above has a `+` at the cell's right edge or ends before it;
/// otherwise up to the next `+` on that border, or to the end of the grid.
pub open spec fn span_at(border: Seq<char>, cols: Seq<int>, col: int) -> int {
    let pos = cols[col + 1];
    if pos < border.len() && border[pos] != '+' {
        match next_joint(border, cols, col + 1) {
            Some(c) => c - col + 1,
            None => cols.len() - 1 - col,
        }
    } else {
        1
    }
}

/// The next joint lies at or after the column where its search began, within the
/// grid.
pub proof fn lemma_next_joint(border: Seq<char>, cols: Seq<int>, c: int)
    requires
        0 <= c,
    ensures
        next_joint(border, cols, c) matches Some(k) ==> c <= k && k + 1 < cols.len(),
    decreases cols.len() - c,
{
    if c + 1 < cols.len() && !plus_at(border, cols[c + 1]) {
        lemma_next_joint(border, cols, c + 1);
    }
}

/// A span is at least one column and stays within the grid.
pub proof fn lemma_span_at(border: Seq<char>, cols: Seq<int>, col: int)
    requires
        0 <= col,
        col + 1 < cols.len(),
    ensures
        1 <= span_at(border, cols, col) <= cols.len() - 1 - col,
{
    lemma_next_joint(border, cols, col + 1);
}

fn span_of(border: &Vec<char>, cols: &Vec<usize>, col: usize) -> (r: usize)
    requires
        col + 1 < cols.len(),
    ensures
        r == span_at(border@, positions_view(cols@), col as int),
        1 <= r <= cols.len() - 1 - col,
{
    let ghost cv = positions_view(cols@);
    proof {
        lemma_span_at(border@, cv, col as int);
    }
    let pos = cols[col + 1];
    assert(cv[col + 1] == pos);
    if pos < border.len() && border[pos] != '+' {
        let mut c: usize = col + 1;
        while c + 1 < cols.len()
            invariant
                col + 1 <= c,
                c + 1 <= cols.len(),
                cv == positions_view(cols@),
                pos == cv[col + 1],
                pos < border.len(),
                border@[pos as int] != '+',
                next_joint(border@, cv, c as int) == next_joint(border@, cv, col + 1),
            decreases cols.len() - c,
        {
            let cp = cols[c + 1];
            assert(cv[c + 1] == cp);
            if cp < border.len() && border[cp] == '+' {
                return c - col + 1;
            }
            c += 1;
        }
        cols.len() - 1 - col
    } else {
        1
    }
}

/// Whether a line holds cells: once trimmed, it begins with `|`.
pub open spec fn content_line(line: Seq<char>) -> bool {
    first_is(trimmed(line), '|')
}

/// Whether a line with cells stands between index `from` and index `n`.
pub open spec fn has_content(ls: Seq<Seq<char>>, from: int, n: int) -> bool
    decreases n - from,
{
    if n <= from {
        false
    } else {
        content_line(ls[n - 1]) || has_content(ls, from, n - 1)
    }
}

/// What the lines `ls[from..n]` that hold cells show between the indices
/// `cs` and `ce`, each piece without the bars at its end and trimmed.
pub open spec fn cell_lines(ls: Seq<Seq<char>>, from: int, n: int, cs: int, ce: int) -> Seq<
    Seq<char>,
>
    decreases n - from,
{
    if n <= from {
        Seq::empty()
    } else {
        let before = cell_lines(ls, from, n - 1, cs, ce);
        let l = ls[n - 1];
        let s = if cs < l.len() {
            cs
        } else {
            l.len() as int
        };
        let e = if ce < l.len() {
            ce
        } else {
            l.len() as int
        };
        if content_line(l) && s < e {
            before.push(trimmed(without_trailing(l.subrange(s, e), '|')))
        } else {
            before
        }
    }
}

/// The number of rows that the cell at column `col` spans: two where the
/// border below has a `+` at the cell's left edge and no rule right after
/// it, else one.
pub open spec fn rowspan_at(below: Seq<char>, cols: Seq<int>, col: int) -> int {
    let left = cols[col];
    if plus_at(below, left) && !(left + 1 < below.len() && (below[left + 1] == '-' || below[left
        + 1] == '=')) {
        2
    } else {
        1
    }
}

/// The cell at column `col` of the row between the borders at the lines
/// `start` and `end`.
pub open spec fn grid_cell(ls: Seq<Seq<char>>, cols: Seq<int>, start: int, end: int, col: int)
    -> CellView {
    let span = span_at(ls[start], cols, col);
    CellView {
        content: trimmed(
            joined(cell_lines(ls, start + 1, end, cols[col] + 1, cols[col + span]), "\n"@),
        ),
        colspan: span,
        rowspan: rowspan_at(ls[end], cols, col),
        covered: false,
    }
}

/// The cells of a row from column `col` on.
pub open spec fn grid_row_from(
    ls: Seq<Seq<char>>,
    cols: Seq<int>,
    start: int,
    end: int,
    col: int,
) -> Seq<CellView>
    decreases cols.len() - col,
    via grid_row_decreases
{
    if col < 0 || col + 1 >= cols.len() {
        Seq::empty()
    } else {
        let cell = grid_cell(ls, cols, start, end, col);
        seq![cell] + grid_row_from(ls, cols, start, end, col + cell.colspan)
    }
}

#[via_fn]
proof fn grid_row_decreases(ls: Seq<Seq<char>>, cols: Seq<int>, start: int, end: int, col: int) {
    if 0 <= col && col + 1 < cols.len() {
        lemma_span_at(ls[start], cols, col);
    }
}

/// The sum of the column spans of the first `n` cells.
pub open spec fn spans_sum(row: Seq<CellView>, n: int) -> int
    decreases n,
{
    if n <= 0 {
        0
    } else {
        spans_sum(row, n - 1) + row[n - 1].colspan
    }
}

proof fn lemma_spans_sum_prepend(cell: CellView, rest: Seq<CellView>, n: int)
    requires
        0 <= n <= rest.len(),
    ensures
        spans_sum(seq![cell] + rest, n + 1) == cell.colspan + spans_sum(rest, n),
    decreases n,
{
    let row = seq![cell] + rest;
    if n > 0 {
        lemma_spans_sum_prepend(cell, rest, n - 1);
        assert(row[n] == rest[n - 1]);
    } else {
        assert(row[0] == cell);
        assert(spans_sum(row, 0) == 0);
    }
}

/// The spans of a row tile the grid: from column `col` on they add up to
/// the number of columns that are left, and each is at least one.
pub proof fn lemma_row_tiles(ls: Seq<Seq<char>>, cols: Seq<int>, start: int, end: int, col: int)
    requires
        0 <= col,
        col + 1 <= cols.len(),
    ensures
        ({
            let row = grid_row_from(ls, cols, start, end, col);
            &&& spans_sum(row, row.len() as int) == cols.len() - 1 - col
            &&& forall|c: int| 0 <= c < row.len() ==> (#[trigger] row[c]).colspan >= 1
            &&& forall|c: int| 0 <= c < row.len() ==> 1 <= (#[trigger] row[c]).rowspan <= 2
            &&& row.len() <= cols.len() - 1 - col
        }),
    decreases cols.len() - col,
{
    if col + 1 < cols.len() {
        lemma_span_at(ls[start], cols, col);
        let cell = grid_cell(ls, cols, start, end, col);
        let rest = grid_row_from(ls, cols, start, end, col + cell.colspan);
        lemma_row_tiles(ls, cols, start, end, col + cell.colspan);
        lemma_spans_sum_prepend(cell, rest, rest.len() as int);
        let row = grid_row_from(ls, cols, start, end, col);
        assert(row == seq![cell] + rest);
        assert forall|c: int| 0 <= c < row.len() implies (#[trigger] row[c]).colspan >= 1 && 1
            <= row[c].rowspan <= 2 by {
            if c > 0 {
                assert(row[c] == rest[c - 1]);
            }
        }
    }
}

/// Whether one of the first `n` cells of the row `above` spans more than
/// one row and occupies the column `col`. A cell occupies the columns from
/// the sum of the column spans before it up to, not including, that sum
/// and its own column span.
pub open spec fn covers(above: Seq<CellView>, col: int, n: int) -> bool
    decreases n,
{
    n > 0 && (covers(above, col, n - 1) || (above[n - 1].rowspan > 1 && spans_sum(above, n - 1)
        <= col < spans_sum(above, n - 1) + above[n - 1].colspan))
}

/// A row in which each cell is marked as covered where a cell of the row
/// above spans more than one row and occupies the column at which the
/// cell begins.
pub open spec fn covered_by(row: Seq<CellView>, above: Seq<CellView>) -> Seq<CellView> {
    Seq::new(
        row.len(),
        |c: int|
            CellView {
                content: row[c].content,
                colspan: row[c].colspan,
                rowspan: row[c].rowspan,
                covered: covers(above, spans_sum(row, c), above.len() as int),
            },
    )
}

/// A cell is covered exactly if some cell of the row above spans more than
/// one row and occupies its column.
pub proof fn lemma_covers(above: Seq<CellView>, col: int, n: int)
    requires
        0 <= n <= above.len(),
    ensures
        covers(above, col, n) <==> exists|k: int|
            0 <= k < n && (#[trigger] above[k]).rowspan > 1 && spans_sum(above, k) <= col
                < spans_sum(above, k) + above[k].colspan,
    decreases n,
{
    if n > 0 {
        lemma_covers(above, col, n - 1);
        if covers(above, col, n) {
            if covers(above, col, n - 1) {
                let k = choose|k: int|
                    0 <= k < n - 1 && (#[trigger] above[k]).rowspan > 1 && spans_sum(above, k)
                        <= col < spans_sum(above, k) + above[k].colspan;
                assert(0 <= k < n && above[k].rowspan > 1);
            } else {
                assert(above[n - 1].rowspan > 1);
            }
        }
    }
}

proof fn lemma_spans_sum_grows(row: Seq<CellView>, k: int, n: int)
    requires
        0 <= k <= n <= row.len(),
        forall|j: int| 0 <= j < row.len() ==> (#[trigger] row[j]).colspan >= 0,
    ensures
        spans_sum(row, k) <= spans_sum(row, n),
    decreases n,
{
    if k < n {
        lemma_spans_sum_grows(row, k, n - 1);
    }
}

/// No cell that begins after the column `col` covers it.
proof fn lemma_covers_stops(above: Seq<CellView>, col: int, k: int, n: int)
    requires
        0 <= k <= n <= above.len(),
        forall|j: int| 0 <= j < above.len() ==> (#[trigger] above[j]).colspan >= 0,
        spans_sum(above, k) > col,
    ensures
        covers(above, col, n) == covers(above, col, k),
    decreases n,
{
    if k < n {
        lemma_covers_stops(above, col, k, n - 1);
        lemma_spans_sum_grows(above, k, n - 1);
    }
}

proof fn lemma_spans_sum_push(row: Seq<CellView>, cell: CellView, n: int)
    requires
        0 <= n <= row.len(),
    ensures
        spans_sum(row.push(cell), n) == spans_sum(row, n),
    decreases n,
{
    if n > 0 {
        lemma_spans_sum_push(row, cell, n - 1);
        assert(row.push(cell)[n - 1] == row[n - 1]);
    }
}

/// The rows between the borders from the `bi`-th on, where `above` is the
/// row before them. Two borders with no line of cells between them make no
/// row.
pub open spec fn grid_rows_from(
    ls: Seq<Seq<char>>,
    cols: Seq<int>,
    borders: Seq<int>,
    bi: int,
    above: Seq<CellView>,
) -> Seq<Seq<CellView>>
    decreases borders.len() - bi,
{
    if bi < 0 || bi + 1 >= borders.len() {
        Seq::empty()
    } else if has_content(ls, borders[bi] + 1, borders[bi + 1]) {
        let row = covered_by(grid_row_from(ls, cols, borders[bi], borders[bi + 1], 0), above);
        seq![row] + grid_rows_from(ls, cols, borders, bi + 1, row)
    } else {
        grid_rows_from(ls, cols, borders, bi + 1, above)
    }
}

/// The rows of a grid table with the spans of their cells.
pub open spec fn grid_rows(ls: Seq<Seq<char>>, cols: Seq<int>) -> Seq<Seq<CellView>> {
    let borders = border_indices(ls, ls.len() as int);
    if cols.len() <= 1 || borders.len() < 2 {
        Seq::empty()
    } else {
        grid_rows_from(ls, cols, borders, 0, Seq::empty())
    }
}

/// A row tiles `n` columns: its column spans add up to `n`, and every
/// span is at least one.
pub open spec fn tiles(row: Seq<CellView>, n: int) -> bool {
    &&& spans_sum(row, row.len() as int) == n
    &&& forall|c: int|
        0 <= c < row.len() ==> (#[trigger] row[c]).colspan >= 1 && row[c].rowspan >= 1
}

/// In every row of a grid table the column spans add up to the number of
/// columns, whether or not a cell is covered, and every span is at least
/// one.
pub proof fn lemma_grid_rows_tile(
    ls: Seq<Seq<char>>,
    cols: Seq<int>,
    borders: Seq<int>,
    bi: int,
    above: Seq<CellView>,
)
    requires
        cols.len() >= 1,
        0 <= bi,
    ensures
        forall|r: int|
            0 <= r < grid_rows_from(ls, cols, borders, bi, above).len() ==> tiles(
                #[trigger] grid_rows_from(ls, cols, borders, bi, above)[r],
                cols.len() - 1,
            ),
    decreases borders.len() - bi,
{
    if bi + 1 < borders.len() {
        if has_content(ls, borders[bi] + 1, borders[bi + 1]) {
            let plain = grid_row_from(ls, cols, borders[bi], borders[bi + 1], 0);
            let row = covered_by(plain, above);
            lemma_row_tiles(ls, cols, borders[bi], borders[bi + 1], 0);
            lemma_spans_sum_covered(plain, above, plain.len() as int);
            assert(tiles(row, cols.len() - 1)) by {
                assert forall|c: int| 0 <= c < row.len() implies (#[trigger] row[c]).colspan >= 1
                    && row[c].rowspan >= 1 by {
                    assert(plain[c].colspan >= 1);
                    assert(plain[c].rowspan >= 1);
                }
            }
            lemma_grid_rows_tile(ls, cols, borders, bi + 1, row);
            let rest = grid_rows_from(ls, cols, borders, bi + 1, row);
            let rows = grid_rows_from(ls, cols, borders, bi, above);
            assert(rows == seq![row] + rest);
            assert forall|r: int| 0 <= r < rows.len() implies tiles(
                #[trigger] rows[r],
                cols.len() - 1,
            ) by {
                if r > 0 {
                    assert(rows[r] == rest[r - 1]);
                } else {
                    assert(rows[0] == row);
                }
            }
        } else {
            lemma_grid_rows_tile(ls, cols, borders, bi + 1, above);
            assert(grid_rows_from(ls, cols, borders, bi, above) == grid_rows_from(
                ls,
                cols,
                borders,
                bi + 1,
                above,
            ));
        }
    } else {
        assert(grid_rows_from(ls, cols, borders, bi, above).len() == 0);
    }
}

proof fn lemma_spans_sum_covered(row: Seq<CellView>, above: Seq<CellView>, n: int)
    requires
        0 <= n <= row.len(),
    ensures
        spans_sum(covered_by(row, above), n) == spans_sum(row, n),
    decreases n,
{
    if n > 0 {
        lemma_spans_sum_covered(row, above, n - 1);
    }
}

fn row_has_content(lines: &Vec<Vec<char>>, from: usize, to: usize) -> (b: bool)
    requires
        from <= to <= lines.len(),
    ensures
        b == has_content(lines_view(lines@), from as int, to as int),
{
    let ghost ls = lines_view(lines@);
    let mut found = false;
    let mut k: usize = from;
    while k < to
        invariant
            from <= k <= to <= lines.len(),
            ls == lines_view(lines@),
            found == has_content(ls, from as int, k as int),
        decreases to - k,
    {
        assert(ls[k as int] == lines@[k as int]@);
        let t = trim(&lines[k]);
        if begins_with_char(&t, '|') {
            found = true;
        }
        k += 1;
    }
    found
}

fn cell_content(lines: &Vec<Vec<char>>, from: usize, to: usize, cs: usize, ce: usize) -> (r: Vec<
    char,
>)
    requires
        from <= to <= lines.len(),
    ensures
        r@ == trimmed(
            joined(cell_lines(lines_view(lines@), from as int, to as int, cs as int, ce as int),
            "\n"@),
        ),
{
    let ghost ls = lines_view(lines@);
    let mut parts: Vec<Vec<char>> = Vec::new();
    let mut k: usize = from;
    assert(lines_view(parts@) =~= Seq::empty());
    while k < to
        invariant
            from <= k <= to <= lines.len(),
            ls == lines_view(lines@),
            lines_view(parts@) == cell_lines(ls, from as int, k as int, cs as int, ce as int),
        decreases to - k,
    {
        assert(ls[k as int] == lines@[k as int]@);
        let line = &lines[k];
        let s = if cs < line.len() {
            cs
        } else {
            line.len()
        };
        let e = if ce < line.len() {
            ce
        } else {
            line.len()
        };
        let t = trim(line);
        if begins_with_char(&t, '|') && s < e {
            let part = copy_range(line, s, e);
            let bare = trim_end_char(&part, '|');
            push_line(&mut parts, trim(&bare));
        }
        k += 1;
    }
    let all = join_lines(&parts, "\n");
    trim(&all)
}

fn rowspan_of(below: &Vec<char>, left: usize) -> (r: usize)
    requires
        left < usize::MAX,
    ensures
        r == if plus_at(below@, left as int) && !(left + 1 < below.len() && (below@[left + 1]
            == '-' || below@[left + 1] == '=')) {
            2int
        } else {
            1int
        },
{
    if left < below.len() && below[left] == '+' {
        let ruled = left + 1 < below.len() && (below[left + 1] == '-' || below[left + 1] == '=');
        if !ruled {
            return 2;
        }
    }
    1
}

/// Whether a cell of the row `above` spans more than one row and occupies
/// the column `col`.
fn is_covered(above: &Vec<TableCell>, col: usize) -> (b: bool)
    ensures
        b == covers(row_view(above@), col as int, above.len() as int),
{
    let ghost av = row_view(above@);
    let mut k: usize = 0;
    let mut begin: usize = 0;
    assert forall|j: int| 0 <= j < av.len() implies (#[trigger] av[j]).colspan >= 0 by {
        assert(av[j] == above@[j]@);
    }
    while k < above.len()
        invariant
            k <= above.len(),
            av == row_view(above@),
            forall|j: int| 0 <= j < av.len() ==> (#[trigger] av[j]).colspan >= 0,
            begin == spans_sum(av, k as int),
            begin <= col,
            !covers(av, col as int, k as int),
        decreases above.len() - k,
    {
        assert(av[k as int] == above@[k as int]@);
        let span = above[k].colspan;
        if span > col - begin {
            proof {
                assert(spans_sum(av, k + 1) == begin + span);
                lemma_covers_stops(av, col as int, k + 1, above.len() as int);
            }
            return above[k].rowspan > 1;
        }
        begin += span;
        k += 1;
    }
    false
}

fn build_row(
    lines: &Vec<Vec<char>>,
    cols: &Vec<usize>,
    start: usize,
    end: usize,
    above: &Vec<TableCell>,
) -> (r: Vec<TableCell>)
    requires
        start < end < lines.len(),
        cols.len() >= 2,
        forall|k: int| 0 <= k < cols@.len() ==> (#[trigger] cols@[k]) < usize::MAX,
    ensures
        row_view(r@) == covered_by(
            grid_row_from(
                lines_view(lines@),
                positions_view(cols@),
                start as int,
                end as int,
                0,
            ),
            row_view(above@),
        ),
{
    let ghost ls = lines_view(lines@);
    let ghost cv = positions_view(cols@);
    let ghost whole = grid_row_from(ls, cv, start as int, end as int, 0);
    let mut row: Vec<TableCell> = Vec::new();
    let mut col: usize = 0;
    let ghost mut plain: Seq<CellView> = Seq::empty();
    assert(ls[start as int] == lines@[start as int]@);
    assert(ls[end as int] == lines@[end as int]@);
    while col + 1 < cols.len()
        invariant
            col + 1 <= cols.len(),
            start < end < lines.len(),
            ls == lines_view(lines@),
            cv == positions_view(cols@),
            ls[start as int] == lines@[start as int]@,
            ls[end as int] == lines@[end as int]@,
            forall|k: int| 0 <= k < cols@.len() ==> (#[trigger] cols@[k]) < usize::MAX,
            plain.len() == row@.len(),
            plain + grid_row_from(ls, cv, start as int, end as int, col as int) == whole,
            spans_sum(plain, plain.len() as int) == col,
            row_view(row@) == covered_by(plain, row_view(above@)),
        decreases cols.len() - col,
    {
        let span = span_of(&lines[start], cols, col);
        let left = cols[col];
        assert(cv[col as int] == left);
        assert(cv[col + span] == cols@[col + span]);
        let content = cell_content(lines, start + 1, end, left + 1, cols[col + span]);
        let rowspan = rowspan_of(&lines[end], left);
        let c = row.len();
        let covered = is_covered(above, col);
        let ghost cell = grid_cell(ls, cv, start as int, end as int, col as int);
        let ghost before = plain;
        let ghost old_row = row_view(row@);
        let ghost old_cells = row@;
        row.push(TableCell { content, colspan: span, rowspan, covered });
        proof {
            plain = before.push(cell);
            assert(before.push(cell) + grid_row_from(
                ls,
                cv,
                start as int,
                end as int,
                col + span,
            ) =~= before + (seq![cell] + grid_row_from(
                ls,
                cv,
                start as int,
                end as int,
                col + span,
            )));
            let av = row_view(above@);
            assert(av.len() == above@.len());
            lemma_spans_sum_push(before, cell, c as int);
            assert(plain[c as int] == cell);
            assert(spans_sum(plain, c + 1) == col + span);
            assert(row@[c as int]@ == covered_by(plain, av)[c as int]);
            assert forall|j: int| 0 <= j < row@.len() implies row_view(row@)[j] == covered_by(
                plain,
                av,
            )[j] by {
                if j < c {
                    lemma_spans_sum_push(before, cell, j);
                    assert(row@[j] == old_cells[j]);
                    assert(old_row[j] == covered_by(before, av)[j]);
                    assert(plain[j] == before[j]);
                }
            }
            assert(row_view(row@) =~= covered_by(plain, av));
        }
        col += span;
    }
    assert(plain + Seq::<CellView>::empty() =~= plain);
    row
}

/// Reads the rows of a grid table and the spans of their cells. In every
/// row the column spans add up to the number of columns.
pub(crate) fn detect_spans(lines: &Vec<Vec<char>>, cols: &Vec<usize>) -> (r: Vec<Vec<TableCell>>)
    requires
        forall|k: int| 0 <= k < cols@.len() ==> (#[trigger] cols@[k]) < usize::MAX,
    ensures
        rows_view(r@) == grid_rows(lines_view(lines@), positions_view(cols@)),
        forall|k: int| 0 <= k < r@.len() ==> tiles(#[trigger] rows_view(r@)[k], cols.len() - 1),
{
    proof {
        let ls = lines_view(lines@);
        let cv = positions_view(cols@);
        let borders = border_indices(ls, ls.len() as int);
        if cv.len() > 1 && borders.len() >= 2 {
            lemma_grid_rows_tile(ls, cv, borders, 0, Seq::empty());
        }
    }
    let mut rows: Vec<Vec<TableCell>> = Vec::new();
    assert(rows_view(rows@) =~= Seq::empty());
    if cols.len() <= 1 {
        return rows;
    }
    let borders = find_borders(lines);
    if borders.len() < 2 {
        return rows;
    }
    let ghost ls = lines_view(lines@);
    let ghost cv = positions_view(cols@);
    let ghost bv = positions_view(borders@);
    let ghost whole = grid_rows_from(ls, cv, bv, 0, Seq::empty());
    let mut bi: usize = 0;
    let ghost mut above: Seq<CellView> = Seq::empty();
    while bi + 1 < borders.len()
        invariant
            bi + 1 <= borders.len(),
            cols.len() >= 2,
            ls == lines_view(lines@),
            cv == positions_view(cols@),
            bv == positions_view(borders@),
            forall|k: int| 0 <= k < cols@.len() ==> (#[trigger] cols@[k]) < usize::MAX,
            forall|k: int| 0 <= k < borders@.len() ==> (#[trigger] borders@[k]) < lines.len(),
            forall|j: int, k: int| 0 <= j < k < borders@.len() ==> borders@[j] < borders@[k],
            rows@.len() == 0 ==> above == Seq::<CellView>::empty(),
            rows@.len() > 0 ==> above == row_view(rows@[rows@.len() - 1]@),
            rows_view(rows@) + grid_rows_from(ls, cv, bv, bi as int, above) == whole,
        decreases borders.len() - bi,
    {
        let start = borders[bi];
        let end = borders[bi + 1];
        assert(bv[bi as int] == start && bv[bi + 1] == end);
        if row_has_content(lines, start + 1, end) {
            let empty: Vec<TableCell> = Vec::new();
            assert(row_view(empty@) =~= Seq::empty());
            let row = if rows.len() > 0 {
                build_row(lines, cols, start, end, &rows[rows.len() - 1])
            } else {
                build_row(lines, cols, start, end, &empty)
            };
            let ghost before = rows_view(rows@);
            let ghost rv = row_view(row@);
            rows.push(row);
            proof {
                assert(rows_view(rows@) =~= before.push(rv));
                assert(before.push(rv) + grid_rows_from(ls, cv, bv, bi + 1, rv) =~= before + (
                seq![rv] + grid_rows_from(ls, cv, bv, bi + 1, rv)));
                above = rv;
            }
        }
        bi += 1;
    }
    assert(rows_view(rows@) + Seq::<Seq<CellView>>::empty() =~= rows_view(rows@));
    rows
}

/// The first index at or after `i` that holds a line which is not blank, or
/// the number of lines.
pub open spec fn skip_blank_lines(ls: Seq<Seq<char>>, i: int) -> int
    decreases ls.len() - i,
{
    if 0 <= i < ls.len() && blank(ls[i]) {
        skip_blank_lines(ls, i + 1)
    } else {
        i
    }
}

/// The class that names the language of a code block; none for no language.
pub open spec fn language_class(lang: Seq<char>) -> Seq<char> {
    if lang.len() > 0 {
        " class=\"language-"@ + escaped(lang) + "\""@
    } else {
        Seq::empty()
    }
}

/// The language that a code directive names: what follows its last `::`.
pub open spec fn code_language(first: Seq<char>) -> Seq<char> {
    match rfind(first, "::"@) {
        Some(p) => trimmed(first.subrange(p + 2, first.len() as int)),
        None => Seq::empty(),
    }
}

/// The HTML of a cell that holds a code directive: the lines after the
/// directive and the blank lines that follow it, dedented and escaped.
pub open spec fn cell_code_html(t: Seq<char>) -> Seq<char> {
    let ls = lines_of(t);
    if ls.len() == 0 {
        Seq::empty()
    } else {
        "<pre><code"@ + language_class(code_language(trimmed(ls[0]))) + ">"@ + escaped(
            dedented(join_between(ls, "\n"@, skip_blank_lines(ls, 1), ls.len() as int)),
        ) + "</code></pre>"@
    }
}

fn process_cell_code_block(t: &Vec<char>) -> (r: Vec<char>)
    ensures
        r@ == cell_code_html(t@),
{
    let lines = split_lines(t);
    if lines.len() == 0 {
        return Vec::new();
    }
    let ghost ls = lines_view(lines@);
    assert(ls[0] == lines@[0]@);
    let first = trim(&lines[0]);
    proof {
        reveal_strlit("::");
    }
    let lang = match rfind_str(&first, "::") {
        Some(p) => {
            let rest = skip(&first, p + 2);
            trim(&rest)
        },
        None => Vec::new(),
    };
    let mut from: usize = 1;
    while from < lines.len() && is_blank(&lines[from])
        invariant
            1 <= from <= lines.len(),
            ls == lines_view(lines@),
            skip_blank_lines(ls, from as int) == skip_blank_lines(ls, 1),
        decreases lines.len() - from,
    {
        assert(ls[from as int] == lines@[from as int]@);
        from += 1;
    }
    assert(from < lines.len() ==> ls[from as int] == lines@[from as int]@);
    let body = join_range(&lines, from, lines.len(), "\n");
    let code = dedent_text(&body);
    let mut out = chars_of("<pre><code");
    if lang.len() > 0 {
        let mut class = chars_of(" class=\"language-");
        let e = escape(&lang);
        extend(&mut class, &e);
        push_str(&mut class, "\"");
        extend(&mut out, &class);
    } else {
        assert(out@ + Seq::<char>::empty() =~= out@);
    }
    push_str(&mut out, ">");
    let e = escape(&code);
    extend(&mut out, &e);
    push_str(&mut out, "</code></pre>");
    out
}

/// The item that a line of a cell makes, if it begins with `- `.
pub open spec fn cell_item(line: Seq<char>) -> Seq<char> {
    let t = trimmed(line);
    if has_prefix(t, "- "@) {
        "<li>"@ + inline_html(t.subrange(2, t.len() as int)) + "</li>"@
    } else {
        Seq::empty()
    }
}

/// The items of the first `n` lines of a cell.
pub open spec fn cell_items_upto(ls: Seq<Seq<char>>, n: int) -> Seq<char>
    decreases n,
{
    if n <= 0 {
        Seq::empty()
    } else {
        cell_items_upto(ls, n - 1) + cell_item(ls[n - 1])
    }
}

/// The HTML of a cell that holds a bullet list.
pub open spec fn cell_list_html(t: Seq<char>) -> Seq<char> {
    "<ul>"@ + cell_items_upto(lines_of(t), lines_of(t).len() as int) + "</ul>"@
}

fn process_cell_list(content: &Vec<char>) -> (r: Vec<char>)
    ensures
        r@ == cell_list_html(content@),
{
    let lines = split_lines(content);
    let ghost ls = lines_view(lines@);
    let mut items: Vec<char> = Vec::new();
    let mut k: usize = 0;
    while k < lines.len()
        invariant
            k <= lines.len(),
            ls == lines_view(lines@),
            items@ == cell_items_upto(ls, k as int),
        decreases lines.len() - k,
    {
        assert(ls[k as int] == lines@[k as int]@);
        let t = trim(&lines[k]);
        if starts_with(&t, "- ") {
            proof {
                reveal_strlit("- ");
            }
            let rest = skip(&t, 2);
            let h = process_inline_text(&rest);
            let mut item = chars_of("<li>");
            extend(&mut item, &h);
            push_str(&mut item, "</li>");
            extend(&mut items, &item);
        } else {
            assert(items@ + Seq::<char>::empty() =~= items@);
        }
        k += 1;
    }
    let mut out = chars_of("<ul>");
    extend(&mut out, &items);
    push_str(&mut out, "</ul>");
    out
}

/// The HTML of what a cell holds: a code directive, a bullet list, or
/// inline text, whose lines are joined by spaces.
pub open spec fn grid_cell_html(content: Seq<char>) -> Seq<char> {
    let t = trimmed(content);
    let ls = lines_of(t);
    if t.len() == 0 {
        Seq::empty()
    } else if has_prefix(t, ".. code-block::"@) || has_prefix(t, ".. code::"@) {
        cell_code_html(t)
    } else if has_prefix(t, "- "@) {
        cell_list_html(t)
    } else if has_char(t, '\n') {
        inline_html(joined(Seq::new(ls.len(), |i: int| trimmed(ls[i])), " "@))
    } else {
        inline_html(t)
    }
}

fn process_grid_cell_content(content: &Vec<char>) -> (r: Vec<char>)
    ensures
        r@ == grid_cell_html(content@),
{
    let t = trim(content);
    if t.len() == 0 {
        return Vec::new();
    }
    if starts_with(&t, ".. code-block::") || starts_with(&t, ".. code::") {
        return process_cell_code_block(&t);
    }
    if starts_with(&t, "- ") {
        return process_cell_list(&t);
    }
    if contains_char(&t, '\n') {
        let lines = split_lines(&t);
        let ghost ls = lines_view(lines@);
        let mut parts: Vec<Vec<char>> = Vec::new();
        let mut k: usize = 0;
        assert(lines_view(parts@) =~= Seq::new(0, |i: int| trimmed(ls[i])));
        while k < lines.len()
            invariant
                k <= lines.len(),
                ls == lines_view(lines@),
                lines_view(parts@) == Seq::new(k as nat, |i: int| trimmed(ls[i])),
            decreases lines.len() - k,
        {
            assert(ls[k as int] == lines@[k as int]@);
            push_line(&mut parts, trim(&lines[k]));
            k += 1;
            assert(lines_view(parts@) =~= Seq::new(k as nat, |i: int| trimmed(ls[i])));
        }
        let all = join_lines(&parts, " ");
        return process_inline_text(&all);
    }
    process_inline_text(&t)
}

/// The attributes of a cell that spans several columns or rows.
pub open spec fn span_attrs(cell: CellView) -> Seq<char> {
    (if cell.colspan > 1 {
        " colspan=\""@ + decimal(cell.colspan as nat) + "\""@
    } else {
        Seq::empty()
    }) + (if cell.rowspan > 1 {
        " rowspan=\""@ + decimal(cell.rowspan as nat) + "\""@
    } else {
        Seq::empty()
    })
}

/// The element of a cell; a covered cell has none.
pub open spec fn grid_cell_element(cell: CellView, tag: Seq<char>) -> Seq<char> {
    if cell.covered {
        Seq::empty()
    } else {
        "<"@ + tag + span_attrs(cell) + ">"@ + grid_cell_html(cell.content) + "</"@ + tag + ">"@
    }
}

/// The elements of the first `n` cells of a row.
pub open spec fn grid_cells_upto(row: Seq<CellView>, tag: Seq<char>, n: int) -> Seq<char>
    decreases n,
{
    if n <= 0 {
        Seq::empty()
    } else {
        grid_cells_upto(row, tag, n - 1) + grid_cell_element(row[n - 1], tag)
    }
}

/// The HTML of one row.
pub open spec fn grid_row_html(row: Seq<CellView>, tag: Seq<char>) -> Seq<char> {
    "<tr>"@ + grid_cells_upto(row, tag, row.len() as int) + "</tr>\n"@
}

/// The tag of a cell: `th` in the header, else `td`.
pub open spec fn cell_tag(in_header: bool) -> Seq<char> {
    if in_header {
        "th"@
    } else {
        "td"@
    }
}

/// The HTML of the first `n` rows, where the first `header_rows` rows are
/// the header if there is one.
pub open spec fn grid_rows_html_upto(
    rows: Seq<Seq<CellView>>,
    n: int,
    has_header: bool,
    header_rows: int,
) -> Seq<char>
    decreases n,
{
    if n <= 0 {
        Seq::empty()
    } else {
        grid_rows_html_upto(rows, n - 1, has_header, header_rows) + (if has_header && n - 1
            == header_rows {
            "</thead>\n<tbody>\n"@
        } else {
            Seq::empty()
        }) + grid_row_html(rows[n - 1], cell_tag(n - 1 < header_rows))
    }
}

/// A border that ends the header: it begins with `+` and holds `=` and
/// no `-`.
pub open spec fn header_border(t: Seq<char>) -> bool {
    first_is(t, '+') && has_char(t, '=') && !has_char(t, '-')
}

/// The first border at or after line `i` that ends the header.
pub open spec fn header_end_from(ls: Seq<Seq<char>>, i: int) -> Option<int>
    decreases ls.len() - i,
{
    if i < 0 || i >= ls.len() {
        None
    } else if header_border(trimmed(ls[i])) {
        Some(i)
    } else {
        header_end_from(ls, i + 1)
    }
}

/// Among the first `n` rows that the borders part, the number of those
/// that lie above the line `he`.
pub open spec fn rows_above(ls: Seq<Seq<char>>, borders: Seq<int>, n: int, he: int) -> int
    decreases n,
{
    if n <= 0 {
        0
    } else {
        rows_above(ls, borders, n - 1, he) + if has_content(ls, borders[n - 1] + 1, borders[n])
            && borders[n] <= he {
            1int
        } else {
            0int
        }
    }
}

/// The number of rows of the header: the rows above the border that ends
/// the header.
pub open spec fn header_row_count(ls: Seq<Seq<char>>) -> int {
    let borders = border_indices(ls, ls.len() as int);
    match header_end_from(ls, 0) {
        Some(he) => rows_above(ls, borders, borders.len() - 1, he),
        None => 0,
    }
}

/// The HTML of a grid table. The rows above the first border of `=` are
/// the header. A block of fewer than three lines, or whose first line has
/// no `+`, is an escaped paragraph.
pub open spec fn grid_table_html(text: Seq<char>) -> Seq<char> {
    let ls = lines_of(text);
    let cols = grid_columns(ls[0]);
    let rows = grid_rows(ls, cols);
    let has_header = header_end_from(ls, 0) is Some;
    let header_rows = header_row_count(ls);
    if ls.len() < 3 || cols.len() == 0 {
        fallback_paragraph(text)
    } else {
        "<table class=\"grid-table\">\n"@ + (if has_header {
            "<thead>\n"@
        } else {
            Seq::empty()
        }) + grid_rows_html_upto(rows, rows.len() as int, has_header, header_rows) + (
        if has_header && rows.len() > header_rows {
            "</tbody>\n"@
        } else {
            Seq::empty()
        }) + "</table>"@
    }
}

fn render_grid_cell(cell: &TableCell, tag: &str) -> (r: Vec<char>)
    ensures
        r@ == grid_cell_element(cell@, tag@),
{
    if cell.covered {
        return Vec::new();
    }
    let mut attrs: Vec<char> = Vec::new();
    if cell.colspan > 1 {
        let mut a = chars_of(" colspan=\"");
        let d = decimal_of(cell.colspan as u128);
        extend(&mut a, &d);
        push_str(&mut a, "\"");
        extend(&mut attrs, &a);
    } else {
        assert(attrs@ + Seq::<char>::empty() =~= attrs@);
    }
    if cell.rowspan > 1 {
        let mut a = chars_of(" rowspan=\"");
        let d = decimal_of(cell.rowspan as u128);
        extend(&mut a, &d);
        push_str(&mut a, "\"");
        extend(&mut attrs, &a);
    } else {
        assert(attrs@ + Seq::<char>::empty() =~= attrs@);
    }
    assert(attrs@ =~= span_attrs(cell@));
    let mut out = chars_of("<");
    push_str(&mut out, tag);
    extend(&mut out, &attrs);
    push_str(&mut out, ">");
    let h = process_grid_cell_content(&cell.content);
    extend(&mut out, &h);
    push_str(&mut out, "</");
    push_str(&mut out, tag);
    push_str(&mut out, ">");
    out
}

fn render_grid_row(row: &Vec<TableCell>, tag: &str) -> (r: Vec<char>)
    ensures
        r@ == grid_row_html(row_view(row@), tag@),
{
    let mut cells: Vec<char> = Vec::new();
    let mut c: usize = 0;
    while c < row.len()
        invariant
            c <= row.len(),
            cells@ == grid_cells_upto(row_view(row@), tag@, c as int),
        decreases row.len() - c,
    {
        assert(row_view(row@)[c as int] == row@[c as int]@);
        let h = render_grid_cell(&row[c], tag);
        extend(&mut cells, &h);
        c += 1;
    }
    let mut out = chars_of("<tr>");
    extend(&mut out, &cells);
    push_str(&mut out, "</tr>\n");
    out
}

fn find_header_end(lines: &Vec<Vec<char>>) -> (r: Option<usize>)
    ensures
        match r {
            Some(he) => header_end_from(lines_view(lines@), 0) == Some(he as int) && he
                < lines.len(),
            None => header_end_from(lines_view(lines@), 0) is None,
        },
{
    let ghost ls = lines_view(lines@);
    let mut i: usize = 0;
    while i < lines.len()
        invariant
            i <= lines.len(),
            ls == lines_view(lines@),
            header_end_from(ls, i as int) == header_end_from(ls, 0),
        decreases lines.len() - i,
    {
        assert(ls[i as int] == lines@[i as int]@);
        let t = trim(&lines[i]);
        if begins_with_char(&t, '+') && contains_char(&t, '=') && !contains_char(&t, '-') {
            return Some(i);
        }
        i += 1;
    }
    None
}

fn count_header_rows(lines: &Vec<Vec<char>>, he: usize) -> (r: usize)
    ensures
        r == rows_above(
            lines_view(lines@),
            border_indices(lines_view(lines@), lines.len() as int),
            border_indices(lines_view(lines@), lines.len() as int).len() - 1,
            he as int,
        ),
{
    let ghost ls = lines_view(lines@);
    let borders = find_borders(lines);
    let ghost bv = positions_view(borders@);
    let mut count: usize = 0;
    let mut n: usize = 0;
    if borders.len() == 0 {
        return 0;
    }
    while n + 1 < borders.len()
        invariant
            n + 1 <= borders.len(),
            ls == lines_view(lines@),
            bv == positions_view(borders@),
            forall|k: int| 0 <= k < borders@.len() ==> (#[trigger] borders@[k]) < lines.len(),
            forall|j: int, k: int| 0 <= j < k < borders@.len() ==> borders@[j] < borders@[k],
            count == rows_above(ls, bv, n as int, he as int),
            count <= n,
        decreases borders.len() - n,
    {
        let start = borders[n];
        let end = borders[n + 1];
        assert(bv[n as int] == start && bv[n + 1] == end);
        if end <= he && row_has_content(lines, start + 1, end) {
            count += 1;
        }
        n += 1;
    }
    count
}

/// Renders a grid table.
pub fn convert_grid_table_text(text: &Vec<char>) -> (r: Vec<char>)
    ensures
        r@ == grid_table_html(text@),
{
    let lines = split_lines(text);
    if lines.len() < 3 {
        return paragraph_of(text);
    }
    let ghost ls = lines_view(lines@);
    assert(ls[0] == lines@[0]@);
    let cols = parse_grid_columns(&lines[0]);
    if cols.len() == 0 {
        return paragraph_of(text);
    }
    let header_end = find_header_end(&lines);
    let has_header = header_end.is_some();
    let header_rows: usize = match header_end {
        Some(he) => count_header_rows(&lines, he),
        None => 0,
    };
    assert(header_rows == header_row_count(ls));
    let rows = detect_spans(&lines, &cols);
    let ghost rv = rows_view(rows@);
    let mut body: Vec<char> = Vec::new();
    let mut k: usize = 0;
    while k < rows.len()
        invariant
            k <= rows.len(),
            rv == rows_view(rows@),
            body@ == grid_rows_html_upto(rv, k as int, has_header, header_rows as int),
        decreases rows.len() - k,
    {
        assert(rv[k as int] == row_view(rows@[k as int]@));
        push_if(&mut body, has_header && k == header_rows, "</thead>\n<tbody>\n");
        let row = render_grid_row(
            &rows[k],
            if k < header_rows {
                "th"
            } else {
                "td"
            },
        );
        extend(&mut body, &row);
        k += 1;
    }
    let mut out = chars_of("<table class=\"grid-table\">\n");
    push_if(&mut out, has_header, "<thead>\n");
    extend(&mut out, &body);
    push_if(&mut out, has_header && rows.len() > header_rows, "</tbody>\n");
    push_str(&mut out, "</table>");
    out
}

/// Renders a grid table.
pub fn convert_grid_table(text: &str) -> (r: String)
    ensures
        r@ == grid_table_html(text@),
{
    let v = chars_of(text);
    let e = convert_grid_table_text(&v);
    string_of(&e)
}

} // verus!
