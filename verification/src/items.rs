//! The items of lists: what belongs to an item, and what an item holds.

use vstd::prelude::*;
use crate::blocks::{indented_follows, is_indented_next};
use crate::inline::{inline_html, process_inline_text};
use crate::lines::{join_lines, joined, lines_of, lines_view, push_line, split_lines};
use crate::lists::{bullet_start, is_bullet_start};
use crate::parser::{adornment_run, is_section_adornment};
use crate::search::{
    contains_str, find, find_str, has, has_prefix, matches_at, occurs_at, starts_with,
};
use crate::tables::list::{trim_start_matches, without_leading};
use crate::text::{
    blank, chars_of, concat3, copy_range, copy_text, extend, indent, indent_of, is_blank,
    lemma_concat_assoc, push_str, skip, take, trim, trimmed,
};

verus! {

/// The lines of a directive inside a list item from `i` on, added to `acc`
/// each after a line feed, and the index after them: the indented lines, and
/// the blank lines that an indented line follows.
pub open spec fn nested_tail(ls: Seq<Seq<char>>, i: int, acc: Seq<char>) -> (Seq<char>, int)
    decreases ls.len() - i,
{
    if i < 0 || i >= ls.len() {
        (acc, i)
    } else if blank(ls[i]) {
        if i + 1 < ls.len() && indent(ls[i + 1]) > 0 {
            nested_tail(ls, i + 1, acc + "\n"@ + ls[i])
        } else {
            (acc, i)
        }
    } else if indent(ls[i]) == 0 {
        (acc, i)
    } else {
        nested_tail(ls, i + 1, acc + "\n"@ + ls[i])
    }
}

/// The lines of a nested directive end at or after their start, within the lines.
pub proof fn lemma_nested_tail(ls: Seq<Seq<char>>, i: int, acc: Seq<char>)
    requires
        0 <= i <= ls.len(),
    ensures
        i <= nested_tail(ls, i, acc).1 <= ls.len(),
    decreases ls.len() - i,
{
    if i < ls.len() {
        if blank(ls[i]) {
            if i + 1 < ls.len() && indent(ls[i + 1]) > 0 {
                lemma_nested_tail(ls, i + 1, acc + "\n"@ + ls[i]);
            }
        } else if indent(ls[i]) != 0 {
            lemma_nested_tail(ls, i + 1, acc + "\n"@ + ls[i]);
        }
    }
}

/// The content of a list item from line `i` on, added to `acc`, and the
/// index after the item. Indented lines belong to the item: a nested
/// bullet and a nested directive are marked, any other line is joined by
/// a space; a blank line belongs to it if an indented line follows.
pub open spec fn item_scan(ls: Seq<Seq<char>>, i: int, acc: Seq<char>) -> (Seq<char>, int)
    decreases ls.len() - i,
    via item_scan_decreases
{
    if i < 0 || i >= ls.len() {
        (acc, i)
    } else if blank(ls[i]) {
        if indented_follows(ls, i) {
            item_scan(ls, i + 1, acc + "\n"@)
        } else {
            (acc, i)
        }
    } else if indent(ls[i]) == 0 {
        (acc, i)
    } else if bullet_start(trimmed(ls[i])) {
        item_scan(ls, i + 1, acc + "\n_NESTED_BULLET_"@ + trimmed(ls[i]))
    } else if has_prefix(trimmed(ls[i]), ".. "@) {
        let tail = nested_tail(ls, i + 1, acc + "\n_NESTED_DIRECTIVE_"@ + trimmed(ls[i]));
        item_scan(ls, tail.1, tail.0)
    } else {
        item_scan(ls, i + 1, acc + " "@ + trimmed(ls[i]))
    }
}

#[via_fn]
proof fn item_scan_decreases(ls: Seq<Seq<char>>, i: int, acc: Seq<char>) {
    if 0 <= i < ls.len() {
        lemma_nested_tail(ls, i + 1, acc + "\n_NESTED_DIRECTIVE_"@ + trimmed(ls[i]));
    }
}

/// A list item ends at or after the start of its scan, within the lines.
pub proof fn lemma_item_scan(ls: Seq<Seq<char>>, i: int, acc: Seq<char>)
    requires
        0 <= i <= ls.len(),
    ensures
        i <= item_scan(ls, i, acc).1 <= ls.len(),
    decreases ls.len() - i,
{
    if i < ls.len() {
        if blank(ls[i]) {
            if indented_follows(ls, i) {
                lemma_item_scan(ls, i + 1, acc + "\n"@);
            }
        } else if indent(ls[i]) == 0 {
        } else if bullet_start(trimmed(ls[i])) {
            lemma_item_scan(ls, i + 1, acc + "\n_NESTED_BULLET_"@ + trimmed(ls[i]));
        } else if has_prefix(trimmed(ls[i]), ".. "@) {
            let tail = nested_tail(ls, i + 1, acc + "\n_NESTED_DIRECTIVE_"@ + trimmed(ls[i]));
            lemma_nested_tail(ls, i + 1, acc + "\n_NESTED_DIRECTIVE_"@ + trimmed(ls[i]));
            lemma_item_scan(ls, tail.1, tail.0);
        } else {
            lemma_item_scan(ls, i + 1, acc + " "@ + trimmed(ls[i]));
        }
    }
}

fn collect_nested_tail(lines: &Vec<Vec<char>>, from: usize, content: &mut Vec<char>) -> (r: usize)
    requires
        from <= lines.len(),
    ensures
        (final(content)@, r as int) == nested_tail(lines_view(lines@), from as int, old(content)@),
        from <= r <= lines.len(),
{
    let ghost ls = lines_view(lines@);
    let mut i: usize = from;
    while i < lines.len()
        invariant
            from <= i <= lines.len(),
            ls == lines_view(lines@),
            nested_tail(ls, i as int, content@) == nested_tail(ls, from as int, old(content)@),
        decreases lines.len() - i,
    {
        assert(ls[i as int] == lines@[i as int]@);
        if is_blank(&lines[i]) {
            let more = if lines.len() - i > 1 {
                assert(ls[i + 1] == lines@[i + 1]@);
                indent_of(&lines[i + 1]) > 0
            } else {
                false
            };
            if !more {
                return i;
            }
        } else if indent_of(&lines[i]) == 0 {
            return i;
        }
        push_str(content, "\n");
        extend(content, &lines[i]);
        i += 1;
    }
    i
}

/// Gathers the content of the list item whose first line, without its
/// marker, is `first` and stands at `start`.
pub(crate) fn collect_list_item_content(
    lines: &Vec<Vec<char>>,
    start: usize,
    first: &Vec<char>,
) -> (r: (Vec<char>, usize))
    requires
        start < lines.len(),
    ensures
        (r.0@, r.1 as int) == item_scan(lines_view(lines@), start + 1, first@),
        start < r.1 <= lines.len(),
{
    let ghost ls = lines_view(lines@);
    let mut content = copy_text(first);
    let mut i: usize = start + 1;
    while i < lines.len()
        invariant
            start < i <= lines.len(),
            ls == lines_view(lines@),
            item_scan(ls, i as int, content@) == item_scan(ls, start + 1, first@),
        decreases lines.len() - i,
    {
        assert(ls[i as int] == lines@[i as int]@);
        if is_blank(&lines[i]) {
            if is_indented_next(lines, i) {
                push_str(&mut content, "\n");
                i += 1;
                continue;
            }
            return (content, i);
        }
        if indent_of(&lines[i]) == 0 {
            return (content, i);
        }
        let t = trim(&lines[i]);
        if is_bullet_start(&t) {
            push_str(&mut content, "\n_NESTED_BULLET_");
            extend(&mut content, &t);
            i += 1;
        } else if starts_with(&t, ".. ") {
            push_str(&mut content, "\n_NESTED_DIRECTIVE_");
            extend(&mut content, &t);
            i = collect_nested_tail(lines, i + 1, &mut content);
        } else {
            push_str(&mut content, " ");
            extend(&mut content, &t);
            i += 1;
        }
    }
    (content, i)
}

/// What comes before the first `sep` in `s`, and what comes after it; all
/// of `s` and nothing where `sep` does not occur.
pub open spec fn split_once(s: Seq<char>, sep: Seq<char>) -> (Seq<char>, Seq<char>) {
    match find(s, sep) {
        Some(p) => (s.subrange(0, p), s.subrange(p + sep.len(), s.len() as int)),
        None => (s, Seq::empty()),
    }
}

/// Parts `s` at the first `sep`.
pub fn split_first(s: &Vec<char>, sep: &str) -> (r: (Vec<char>, Vec<char>))
    ensures
        (r.0@, r.1@) == split_once(s@, sep@),
{
    match find_str(s, sep) {
        Some(p) => {
            let n = chars_of(sep).len();
            (take(s, p), skip(s, p + n))
        },
        None => (copy_text(s), Vec::new()),
    }
}

/// The kind of what a list item holds besides its own text.
pub enum Nesting {
    Bullets,
    Directive,
    Nothing,
}

/// What a list item holds besides its own text, told by the marks in its content.
pub open spec fn nesting_of(content: Seq<char>) -> Nesting {
    if has(content, "_NESTED_BULLET_"@) {
        Nesting::Bullets
    } else if has(content, "_NESTED_DIRECTIVE_"@) {
        Nesting::Directive
    } else {
        Nesting::Nothing
    }
}

/// The text of a list item itself: what comes before the first mark.
pub open spec fn item_head(content: Seq<char>) -> Seq<char> {
    match nesting_of(content) {
        Nesting::Bullets => split_once(content, "\n_NESTED_BULLET_"@).0,
        Nesting::Directive => split_once(content, "\n_NESTED_DIRECTIVE_"@).0,
        Nesting::Nothing => content,
    }
}

/// The markup that a list item holds besides its own text: the nested
/// bullets without their marks, or the nested directive with its lines.
pub open spec fn item_source(content: Seq<char>) -> Seq<char> {
    match nesting_of(content) {
        Nesting::Bullets => {
            let ls = lines_of(split_once(content, "\n_NESTED_BULLET_"@).1);
            joined(Seq::new(ls.len(), |k: int| without_leading(ls[k], "_NESTED_BULLET_"@)), "\n"@)
        },
        Nesting::Directive => without_leading(
            split_once(content, "\n_NESTED_DIRECTIVE_"@).1,
            "_NESTED_DIRECTIVE_"@,
        ),
        Nesting::Nothing => Seq::empty(),
    }
}

/// The HTML of a list item, given what it holds besides its own text
/// rendered as blocks.
pub open spec fn item_html(content: Seq<char>, body: Seq<char>) -> Seq<char> {
    match nesting_of(content) {
        Nesting::Nothing => inline_html(trimmed(content)),
        _ => inline_html(trimmed(item_head(content))) + "\n"@ + body,
    }
}

/// Tells what a list item holds besides its own text.
pub fn nesting(content: &Vec<char>) -> (r: Nesting)
    ensures
        r == nesting_of(content@),
{
    if contains_str(content, "_NESTED_BULLET_") {
        Nesting::Bullets
    } else if contains_str(content, "_NESTED_DIRECTIVE_") {
        Nesting::Directive
    } else {
        Nesting::Nothing
    }
}

/// The markup that a list item holds besides its own text.
pub fn nested_source(content: &Vec<char>) -> (r: Vec<char>)
    ensures
        r@ == item_source(content@),
{
    match nesting(content) {
        Nesting::Bullets => {
            let (_head, tail) = split_first(content, "\n_NESTED_BULLET_");
            let lines = split_lines(&tail);
            let ghost ls = lines_view(lines@);
            let mut bare: Vec<Vec<char>> = Vec::new();
            let mut k: usize = 0;
            assert(lines_view(bare@) =~= Seq::new(
                0,
                |k: int| without_leading(ls[k], "_NESTED_BULLET_"@),
            ));
            while k < lines.len()
                invariant
                    k <= lines.len(),
                    ls == lines_view(lines@),
                    lines_view(bare@) == Seq::new(
                        k as nat,
                        |j: int| without_leading(ls[j], "_NESTED_BULLET_"@),
                    ),
                decreases lines.len() - k,
            {
                assert(ls[k as int] == lines@[k as int]@);
                push_line(&mut bare, trim_start_matches(&lines[k], "_NESTED_BULLET_"));
                k += 1;
                assert(lines_view(bare@) =~= Seq::new(
                    k as nat,
                    |j: int| without_leading(ls[j], "_NESTED_BULLET_"@),
                ));
            }
            join_lines(&bare, "\n")
        },
        Nesting::Directive => {
            let (_head, tail) = split_first(content, "\n_NESTED_DIRECTIVE_");
            trim_start_matches(&tail, "_NESTED_DIRECTIVE_")
        },
        Nesting::Nothing => Vec::new(),
    }
}

/// Renders a list item, given what it holds besides its own text rendered
/// as blocks.
pub fn render_list_item_content(content: &Vec<char>, body: &Vec<char>) -> (r: Vec<char>)
    ensures
        r@ == item_html(content@, body@),
{
    match nesting(content) {
        Nesting::Bullets => {
            let (head, _tail) = split_first(content, "\n_NESTED_BULLET_");
            let t = trim(&head);
            let h = process_inline_text(&t);
            let mut out = h;
            push_str(&mut out, "\n");
            extend(&mut out, body);
            out
        },
        Nesting::Directive => {
            let (head, _tail) = split_first(content, "\n_NESTED_DIRECTIVE_");
            let t = trim(&head);
            let h = process_inline_text(&t);
            let mut out = h;
            push_str(&mut out, "\n");
            extend(&mut out, body);
            out
        },
        Nesting::Nothing => {
            let t = trim(content);
            process_inline_text(&t)
        },
    }
}

/// The value of a field from line `j` on, added to `acc`, and the index
/// after it: indented lines are joined by spaces, a blank line that an
/// indented line follows is a line feed.
pub open spec fn field_value_scan(ls: Seq<Seq<char>>, j: int, acc: Seq<char>) -> (Seq<char>, int)
    decreases ls.len() - j,
{
    if j < 0 || j >= ls.len() {
        (acc, j)
    } else if blank(ls[j]) {
        if indented_follows(ls, j) {
            field_value_scan(ls, j + 1, acc + "\n"@)
        } else {
            (acc, j)
        }
    } else if indent(ls[j]) > 0 {
        field_value_scan(ls, j + 1, acc + " "@ + trimmed(ls[j]))
    } else {
        (acc, j)
    }
}

/// The value of a field ends at or after the start of its scan, within the lines.
pub proof fn lemma_field_value_scan(ls: Seq<Seq<char>>, j: int, acc: Seq<char>)
    requires
        0 <= j <= ls.len(),
    ensures
        j <= field_value_scan(ls, j, acc).1 <= ls.len(),
    decreases ls.len() - j,
{
    if j < ls.len() {
        if blank(ls[j]) {
            if indented_follows(ls, j) {
                lemma_field_value_scan(ls, j + 1, acc + "\n"@);
            }
        } else if indent(ls[j]) > 0 {
            lemma_field_value_scan(ls, j + 1, acc + " "@ + trimmed(ls[j]));
        }
    }
}

/// Gathers the value of a field whose first line gives `first`.
pub(crate) fn collect_field_value(lines: &Vec<Vec<char>>, from: usize, first: Vec<char>) -> (r: (
    Vec<char>,
    usize,
))
    requires
        from <= lines.len(),
    ensures
        (r.0@, r.1 as int) == field_value_scan(lines_view(lines@), from as int, first@),
        from <= r.1 <= lines.len(),
{
    let ghost ls = lines_view(lines@);
    let mut value = first;
    let mut j: usize = from;
    while j < lines.len()
        invariant
            from <= j <= lines.len(),
            ls == lines_view(lines@),
            field_value_scan(ls, j as int, value@) == field_value_scan(ls, from as int, first@),
        decreases lines.len() - j,
    {
        assert(ls[j as int] == lines@[j as int]@);
        if is_blank(&lines[j]) {
            if is_indented_next(lines, j) {
                push_str(&mut value, "\n");
                j += 1;
                continue;
            }
            return (value, j);
        }
        if indent_of(&lines[j]) > 0 {
            let t = trim(&lines[j]);
            push_str(&mut value, " ");
            extend(&mut value, &t);
            j += 1;
        } else {
            return (value, j);
        }
    }
    (value, j)
}

/// The pieces of `s` between the occurrences of `sep`, which is not
/// empty, from index `i` on, where the piece being read began at `start`.
pub open spec fn pieces_scan(s: Seq<char>, sep: Seq<char>, start: int, i: int) -> Seq<Seq<char>>
    decreases s.len() - i,
{
    if i < 0 || i >= s.len() || sep.len() == 0 {
        seq![s.subrange(start, s.len() as int)]
    } else if occurs_at(s, sep, i) {
        seq![s.subrange(start, i)] + pieces_scan(s, sep, i + sep.len(), i + sep.len())
    } else {
        pieces_scan(s, sep, start, i + 1)
    }
}

/// The pieces of `s` between the occurrences of `sep`.
pub open spec fn pieces(s: Seq<char>, sep: Seq<char>) -> Seq<Seq<char>> {
    pieces_scan(s, sep, 0, 0)
}

/// Parts `s` at every `sep`.
pub fn split_pieces(s: &Vec<char>, sep: &str) -> (r: Vec<Vec<char>>)
    ensures
        lines_view(r@) == pieces(s@, sep@),
        r.len() >= 1,
{
    let q = chars_of(sep);
    let mut out: Vec<Vec<char>> = Vec::new();
    if q.len() == 0 {
        push_line(&mut out, copy_text(s));
        assert(s@.subrange(0, s.len() as int) =~= s@);
        assert(lines_view(out@) =~= seq![s@]);
        return out;
    }
    let mut start: usize = 0;
    let mut i: usize = 0;
    assert(lines_view(out@) =~= Seq::<Seq<char>>::empty());
    while i < s.len()
        invariant
            start <= i <= s.len(),
            q@ == sep@,
            q.len() > 0,
            lines_view(out@) + pieces_scan(s@, sep@, start as int, i as int) == pieces(s@, sep@),
        decreases s.len() - i,
    {
        if matches_at(s, &q, i) {
            let piece = copy_range(s, start, i);
            let ghost before = lines_view(out@);
            let ghost rest = pieces_scan(s@, sep@, i + q.len(), i + q.len());
            push_line(&mut out, piece);
            assert(before.push(piece@) + rest =~= before + (seq![piece@] + rest));
            i += q.len();
            start = i;
        } else {
            i += 1;
        }
    }
    let piece = copy_range(s, start, s.len());
    let ghost before = lines_view(out@);
    push_line(&mut out, piece);
    assert(before.push(piece@) =~= before + seq![piece@]);
    out
}

/// The classifiers of a term from the `n`-th piece down to the second.
pub open spec fn classifiers_upto(parts: Seq<Seq<char>>, n: int) -> Seq<char>
    decreases n,
{
    if n <= 1 {
        Seq::empty()
    } else {
        classifiers_upto(parts, n - 1) + " <span class=\"classifier\">"@ + inline_html(
            trimmed(parts[n - 1]),
        ) + "</span>"@
    }
}

/// The term of a definition with its classifiers, which ` : ` parts from
/// the term and from each other.
pub open spec fn term_html(t: Seq<char>) -> Seq<char> {
    let parts = pieces(t, " : "@);
    "<dt>"@ + inline_html(parts[0]) + classifiers_upto(parts, parts.len() as int) + "</dt>\n"@
}

fn render_term(t: &Vec<char>) -> (r: Vec<char>)
    ensures
        r@ == term_html(t@),
{
    let parts = split_pieces(t, " : ");
    let ghost pv = lines_view(parts@);
    assert(pv[0] == parts@[0]@);
    let h = process_inline_text(&parts[0]);
    let mut out = chars_of("<dt>");
    extend(&mut out, &h);
    let mut spans: Vec<char> = Vec::new();
    let mut k: usize = 1;
    while k < parts.len()
        invariant
            1 <= k <= parts.len(),
            pv == lines_view(parts@),
            spans@ == classifiers_upto(pv, k as int),
        decreases parts.len() - k,
    {
        assert(pv[k as int] == parts@[k as int]@);
        let c = trim(&parts[k]);
        let ch = process_inline_text(&c);
        push_str(&mut spans, " <span class=\"classifier\">");
        extend(&mut spans, &ch);
        push_str(&mut spans, "</span>");
        k += 1;
    }
    extend(&mut out, &spans);
    push_str(&mut out, "</dt>\n");
    out
}

/// The index after the lines of a definition from `i` on: the indented
/// lines, and the blank lines that an indented line follows.
pub open spec fn definition_end(ls: Seq<Seq<char>>, i: int) -> int
    decreases ls.len() - i,
{
    if i < 0 || i >= ls.len() {
        i
    } else if blank(ls[i]) {
        if i + 1 < ls.len() && indent(ls[i + 1]) > 0 {
            definition_end(ls, i + 1)
        } else {
            i
        }
    } else if indent(ls[i]) > 0 {
        definition_end(ls, i + 1)
    } else {
        i
    }
}

/// A definition ends at or after its start, within the lines.
pub proof fn lemma_definition_end(ls: Seq<Seq<char>>, i: int)
    requires
        0 <= i <= ls.len(),
    ensures
        i <= definition_end(ls, i) <= ls.len(),
    decreases ls.len() - i,
{
    if i < ls.len() {
        if blank(ls[i]) {
            if i + 1 < ls.len() && indent(ls[i + 1]) > 0 {
                lemma_definition_end(ls, i + 1);
            }
        } else if indent(ls[i]) > 0 {
            lemma_definition_end(ls, i + 1);
        }
    }
}

/// The lines `ls[from..to]` of a definition: each trimmed, a blank line
/// empty.
pub open spec fn definition_window(ls: Seq<Seq<char>>, from: int, to: int) -> Seq<Seq<char>> {
    Seq::new(
        (to - from) as nat,
        |k: int|
            if blank(ls[from + k]) {
                Seq::empty()
            } else {
                trimmed(ls[from + k])
            },
    )
}

/// The definition that follows a term at line `i`.
pub open spec fn definition_html(ls: Seq<Seq<char>>, i: int) -> Seq<char> {
    "<dd>"@ + inline_html(
        trimmed(joined(definition_window(ls, i, definition_end(ls, i)), " "@)),
    ) + "</dd>\n"@
}

/// Whether another definition follows the blank line at `i`: a line that
/// is not indented, and after it an indented line that is neither blank
/// nor an adornment.
pub open spec fn definition_follows(ls: Seq<Seq<char>>, i: int) -> bool {
    i + 2 < ls.len() && !blank(ls[i + 1]) && indent(ls[i + 1]) == 0 && indent(ls[i + 2]) > 0
        && !blank(ls[i + 2]) && !adornment_run(trimmed(ls[i + 2]))
}

/// The entries of a definition list from line `i` on, and the index after
/// the list.
pub open spec fn definition_entries(ls: Seq<Seq<char>>, i: int) -> (Seq<char>, int)
    decreases ls.len() - i,
    via definition_entries_decreases
{
    if i < 0 || i >= ls.len() {
        (Seq::empty(), i)
    } else if blank(ls[i]) {
        if definition_follows(ls, i) {
            definition_entries(ls, i + 1)
        } else {
            (Seq::empty(), i)
        }
    } else if indent(ls[i]) == 0 {
        let rest = definition_entries(ls, definition_end(ls, i + 1));
        (term_html(trimmed(ls[i])) + definition_html(ls, i + 1) + rest.0, rest.1)
    } else {
        definition_entries(ls, i + 1)
    }
}

#[via_fn]
proof fn definition_entries_decreases(ls: Seq<Seq<char>>, i: int) {
    if 0 <= i < ls.len() {
        lemma_definition_end(ls, i + 1);
    }
}

/// A definition list ends within the lines, and after its first line if that line
/// is not blank.
pub proof fn lemma_definition_entries(ls: Seq<Seq<char>>, i: int)
    requires
        0 <= i <= ls.len(),
    ensures
        i <= definition_entries(ls, i).1 <= ls.len(),
        i < ls.len() && !blank(ls[i]) ==> i < definition_entries(ls, i).1,
    decreases ls.len() - i,
{
    if i < ls.len() {
        if blank(ls[i]) {
            if definition_follows(ls, i) {
                lemma_definition_entries(ls, i + 1);
            }
        } else if indent(ls[i]) == 0 {
            lemma_definition_end(ls, i + 1);
            lemma_definition_entries(ls, definition_end(ls, i + 1));
        } else {
            lemma_definition_entries(ls, i + 1);
        }
    }
}

/// The HTML of the definition list that begins at `start`.
pub open spec fn definition_list_html(ls: Seq<Seq<char>>, start: int) -> Seq<char> {
    "<dl>\n"@ + definition_entries(ls, start).0 + "</dl>"@
}

fn is_definition_next(lines: &Vec<Vec<char>>, i: usize) -> (b: bool)
    requires
        i < lines.len(),
    ensures
        b == definition_follows(lines_view(lines@), i as int),
{
    if lines.len() - i > 2 {
        assert(lines_view(lines@)[i + 1] == lines@[i + 1]@);
        assert(lines_view(lines@)[i + 2] == lines@[i + 2]@);
        if is_blank(&lines[i + 1]) || indent_of(&lines[i + 1]) != 0 {
            return false;
        }
        if indent_of(&lines[i + 2]) == 0 || is_blank(&lines[i + 2]) {
            return false;
        }
        let t = trim(&lines[i + 2]);
        !is_section_adornment(&t)
    } else {
        false
    }
}

fn find_definition_end(lines: &Vec<Vec<char>>, from: usize) -> (r: usize)
    requires
        from <= lines.len(),
    ensures
        r == definition_end(lines_view(lines@), from as int),
        from <= r <= lines.len(),
{
    let ghost ls = lines_view(lines@);
    let mut i: usize = from;
    while i < lines.len()
        invariant
            from <= i <= lines.len(),
            ls == lines_view(lines@),
            definition_end(ls, i as int) == definition_end(ls, from as int),
        decreases lines.len() - i,
    {
        assert(ls[i as int] == lines@[i as int]@);
        if is_blank(&lines[i]) {
            let more = if lines.len() - i > 1 {
                assert(ls[i + 1] == lines@[i + 1]@);
                indent_of(&lines[i + 1]) > 0
            } else {
                false
            };
            if !more {
                return i;
            }
        } else if indent_of(&lines[i]) == 0 {
            return i;
        }
        i += 1;
    }
    i
}

fn render_definition(lines: &Vec<Vec<char>>, from: usize, to: usize) -> (r: Vec<char>)
    requires
        from <= to <= lines.len(),
    ensures
        r@ == "<dd>"@ + inline_html(
            trimmed(joined(definition_window(lines_view(lines@), from as int, to as int), " "@)),
        ) + "</dd>\n"@,
{
    let ghost ls = lines_view(lines@);
    let mut parts: Vec<Vec<char>> = Vec::new();
    let mut k: usize = from;
    assert(lines_view(parts@) =~= definition_window(ls, from as int, from as int));
    while k < to
        invariant
            from <= k <= to <= lines.len(),
            ls == lines_view(lines@),
            lines_view(parts@) == definition_window(ls, from as int, k as int),
        decreases to - k,
    {
        assert(ls[k as int] == lines@[k as int]@);
        if is_blank(&lines[k]) {
            push_line(&mut parts, Vec::new());
        } else {
            push_line(&mut parts, trim(&lines[k]));
        }
        k += 1;
        assert(lines_view(parts@) =~= definition_window(ls, from as int, k as int));
    }
    let def = join_lines(&parts, " ");
    let t = trim(&def);
    let h = process_inline_text(&t);
    concat3("<dd>", &h, "</dd>\n")
}

/// Renders the definition list that begins at `start`.
pub(crate) fn convert_definition_list(lines: &Vec<Vec<char>>, start: usize) -> (r: (
    Vec<char>,
    usize,
))
    requires
        start <= lines.len(),
    ensures
        r.0@ == definition_list_html(lines_view(lines@), start as int),
        r.1 == definition_entries(lines_view(lines@), start as int).1,
        start <= r.1 <= lines.len(),
        start < lines.len() && !blank(lines_view(lines@)[start as int]) ==> start < r.1,
{
    let ghost ls = lines_view(lines@);
    proof {
        lemma_definition_entries(ls, start as int);
    }
    let mut entries: Vec<char> = Vec::new();
    let mut i: usize = start;
    while i < lines.len()
        invariant
            start <= i <= lines.len(),
            ls == lines_view(lines@),
            entries@ + definition_entries(ls, i as int).0 == definition_entries(
                ls,
                start as int,
            ).0,
            definition_entries(ls, i as int).1 == definition_entries(ls, start as int).1,
        decreases lines.len() - i,
    {
        assert(ls[i as int] == lines@[i as int]@);
        if is_blank(&lines[i]) {
            if is_definition_next(lines, i) {
                i += 1;
                continue;
            }
            assert(entries@ + Seq::<char>::empty() =~= entries@);
            return (concat3("<dl>\n", &entries, "</dl>"), i);
        }
        if indent_of(&lines[i]) == 0 {
            let t = trim(&lines[i]);
            let term = render_term(&t);
            let end = find_definition_end(lines, i + 1);
            let def = render_definition(lines, i + 1, end);
            let ghost before = entries@;
            let mut piece = term;
            extend(&mut piece, &def);
            extend(&mut entries, &piece);
            proof {
                let rest = definition_entries(ls, end as int);
                lemma_concat_assoc(before, piece@, rest.0);
            }
            i = end;
        } else {
            i += 1;
        }
    }
    assert(entries@ + Seq::<char>::empty() =~= entries@);
    (concat3("<dl>\n", &entries, "</dl>"), i)
}

} // verus!
