//! What holds of the converter as a whole.

use vstd::prelude::*;
use crate::analysis::{analyzed, meta_from, overlined_at, underlined_at};
use crate::blocks::{
    lemma_blank_from, lemma_directive_end, lemma_grid_table_end_from, lemma_indented_block_end,
    lemma_line_block_end, lemma_paragraph_stop, lemma_simple_table_end, lemma_skipped_from,
    paragraph_end, paragraph_stop, paragraph_text, stops_at_title, table_border, trimmed_window,
};
use crate::clock::Moment;
use crate::converter::{
    block_at, blocks_from, definition_at, directive_block, document_html, early_block, field_at,
    late_block, lemma_bullet_items, lemma_enumerated_items, lemma_field_entries, middle_block,
    no_counts, paragraph_block, plain_block, second_pass_html, MAX_DEPTH,
};
use crate::directives::DirectiveView;
use crate::items::lemma_definition_entries;
use crate::chars::{all_ascii, alphanumeric, ascii_upper, is_ascii, lower_char, lowercase};
use crate::html_utils::{
    escape_one, escaped, escaped_upto, slug, slug_of_lowercase, slug_separator, slug_upto,
};
use crate::inline::{inline_from, inline_html, inline_span, plain_one};
use crate::lines::{join_between, lines_of, lines_scan};
use crate::lists::{bullet_start, option_line};
use crate::parser::{adornment_char, adornment_run, enumerated, enumerator_end, grid_border_like};
use crate::search::{
    find_char_from, has_char, has_prefix, has_suffix, last_is, lemma_find_char_from,
};
use crate::state::{assigned, empty_meta, level_of, resolved_upto, Meta};
use crate::tables::grid::{border_indices, grid_rows, lemma_grid_rows_tile, tiles};
use crate::text::{
    blank, drop_spaces, drop_trailing, indent, is_space, skip_spaces, trimmed, trimmed_end,
    trimmed_start,
};

verus! {

/// The adornments seen once each of the first `n` values of `later` has
/// been seen in turn.
pub open spec fn assigned_all(chars: Seq<char>, later: Seq<char>, n: int) -> Seq<char>
    decreases n,
{
    if n <= 0 {
        chars
    } else {
        assigned(assigned_all(chars, later, n - 1), later[n - 1])
    }
}

proof fn lemma_find_char_push(x: Seq<char>, d: char, c: char, i: int)
    requires
        0 <= i <= x.len(),
    ensures
        find_char_from(x.push(d), c, i) == match find_char_from(x, c, i) {
            Some(p) => Some(p),
            None => if d == c {
                Some(x.len() as int)
            } else {
                None
            },
        },
    decreases x.len() - i,
{
    let y = x.push(d);
    if i < x.len() {
        assert(y[i] == x[i]);
        if x[i] != c {
            lemma_find_char_push(x, d, c, i + 1);
        }
    } else {
        assert(y[i] == d);
        assert(find_char_from(y, c, i + 1) is None);
    }
}

/// Seeing an adornment gives it the level that it then keeps.
proof fn lemma_assigned_level(chars: Seq<char>, c: char)
    ensures
        has_char(assigned(chars, c), c),
        level_of(assigned(chars, c), c) == level_of(chars, c),
{
    if !has_char(chars, c) {
        lemma_find_char_push(chars, c, c, 0);
    }
}

/// Seeing another adornment changes nothing for one that was seen.
proof fn lemma_assigned_keeps(chars: Seq<char>, c: char, d: char)
    requires
        has_char(chars, c),
    ensures
        has_char(assigned(chars, d), c),
        level_of(assigned(chars, d), c) == level_of(chars, c),
{
    if !has_char(chars, d) {
        lemma_find_char_push(chars, d, c, 0);
    }
}

/// The level of an adornment is stable: once the adornment `c` has been
/// seen, it has the same level whatever adornments are seen after it.
pub proof fn lemma_level_is_stable(chars: Seq<char>, c: char, later: Seq<char>, n: int)
    requires
        0 <= n <= later.len(),
    ensures
        has_char(assigned_all(assigned(chars, c), later, n), c),
        level_of(assigned_all(assigned(chars, c), later, n), c) == level_of(chars, c),
    decreases n,
{
    lemma_assigned_level(chars, c);
    if n > 0 {
        lemma_level_is_stable(chars, c, later, n - 1);
        lemma_assigned_keeps(assigned_all(assigned(chars, c), later, n - 1), c, later[n - 1]);
    }
}

/// The first adornment of a document marks level one, and the second one
/// that differs from it marks level two.
pub proof fn lemma_levels_follow_first_use(a: char, b: char)
    requires
        a != b,
    ensures
        level_of(Seq::empty(), a) == 1,
        level_of(assigned(Seq::empty(), a), b) == 2,
{
    let none = Seq::<char>::empty();
    assert(find_char_from(none, a, 0) is None);
    lemma_find_char_push(none, a, b, 0);
    assert(find_char_from(none, b, 0) is None);
    assert(assigned(none, a) == none.push(a));
}

/// In every row of a grid table the column spans add up to the number of
/// columns, whether or not a cell is covered, and every span is at least
/// one.
pub proof fn lemma_grid_table_tiles(ls: Seq<Seq<char>>, cols: Seq<int>)
    ensures
        forall|r: int|
            0 <= r < grid_rows(ls, cols).len() ==> tiles(
                #[trigger] grid_rows(ls, cols)[r],
                cols.len() - 1,
            ),
{
    let borders = border_indices(ls, ls.len() as int);
    if cols.len() > 1 && borders.len() >= 2 {
        lemma_grid_rows_tile(ls, cols, borders, 0, Seq::empty());
    }
}

/// A directive reads nothing of the state of a document but the titles
/// and the hyperlink targets.
pub proof fn lemma_directive_reads_titles_and_targets(
    d: DirectiveView,
    a: Meta,
    b: Meta,
    now: Moment,
    depth: nat,
)
    requires
        a.section_titles == b.section_titles,
        a.target_references == b.target_references,
    ensures
        directive_block(d, a, now, depth) == directive_block(d, b, now, depth),
{
}

/// The shape of a slug that is being built: letters, digits and hyphens,
/// no hyphen at the start, no two hyphens in a row.
pub open spec fn slug_shaped(g: Seq<char>) -> bool {
    &&& forall|k: int| 0 <= k < g.len() ==> alphanumeric(#[trigger] g[k]) || g[k] == '-'
    &&& g.len() > 0 ==> g[0] != '-'
    &&& forall|k: int| 0 <= k && k + 1 < g.len() ==> !((#[trigger] g[k]) == '-' && g[k + 1] == '-')
}

proof fn lemma_slug_upto(s: Seq<char>, n: int)
    requires
        0 <= n <= s.len(),
    ensures
        slug_shaped(slug_upto(s, n)),
    decreases n,
{
    if n > 0 {
        lemma_slug_upto(s, n - 1);
        let before = slug_upto(s, n - 1);
        let c = s[n - 1];
        let g = slug_upto(s, n);
        assert(!alphanumeric('-'));
        if alphanumeric(c) || (slug_separator(c) && before.len() > 0 && !last_is(before, '-')) {
            let x = if alphanumeric(c) {
                c
            } else {
                '-'
            };
            assert(g == before.push(x));
            assert forall|k: int| 0 <= k < g.len() implies alphanumeric(#[trigger] g[k]) || g[k]
                == '-' by {
                if k < before.len() {
                    assert(g[k] == before[k]);
                }
            }
            assert forall|k: int| 0 <= k && k + 1 < g.len() implies !((#[trigger] g[k]) == '-'
                && g[k + 1] == '-') by {
                if k + 1 < before.len() {
                    assert(g[k] == before[k] && g[k + 1] == before[k + 1]);
                } else {
                    assert(g[k] == before[k]);
                }
            }
            if before.len() > 0 {
                assert(g[0] == before[0]);
            }
        }
    }
}

proof fn lemma_drop_trailing(s: Seq<char>, c: char, n: int)
    requires
        0 <= n <= s.len(),
    ensures
        0 <= drop_trailing(s, c, n) <= n,
        drop_trailing(s, c, n) > 0 ==> s[drop_trailing(s, c, n) - 1] != c,
    decreases n,
{
    if n > 0 && s[n - 1] == c {
        lemma_drop_trailing(s, c, n - 1);
    }
}

/// A slug holds letters, digits and hyphens; it neither begins nor ends
/// with a hyphen, and no two hyphens stand side by side in it.
pub proof fn lemma_slug_shape(s: Seq<char>)
    ensures
        slug_shaped(slug_of_lowercase(s)),
        slug_of_lowercase(s).len() > 0 ==> slug_of_lowercase(s)[slug_of_lowercase(s).len() - 1]
            != '-',
{
    let whole = slug_upto(s, s.len() as int);
    lemma_slug_upto(s, s.len() as int);
    lemma_drop_trailing(whole, '-', whole.len() as int);
    let g = slug_of_lowercase(s);
    assert(g == whole.subrange(0, drop_trailing(whole, '-', whole.len() as int)));
    assert forall|k: int| 0 <= k < g.len() implies alphanumeric(#[trigger] g[k]) || g[k] == '-' by {
        assert(g[k] == whole[k]);
    }
    assert forall|k: int| 0 <= k && k + 1 < g.len() implies !((#[trigger] g[k]) == '-' && g[k + 1]
        == '-') by {
        assert(g[k] == whole[k] && g[k + 1] == whole[k + 1]);
    }
    if g.len() > 0 {
        assert(g[0] == whole[0]);
        assert(g[g.len() - 1] == whole[g.len() - 1]);
    }
}

proof fn lemma_slug_upto_lower(l: Seq<char>, n: int)
    requires
        0 <= n <= l.len(),
        forall|j: int| 0 <= j < l.len() ==> !ascii_upper(#[trigger] l[j]),
    ensures
        forall|k: int|
            0 <= k < slug_upto(l, n).len() ==> !ascii_upper(#[trigger] slug_upto(l, n)[k]),
    decreases n,
{
    if n > 0 {
        lemma_slug_upto_lower(l, n - 1);
        let before = slug_upto(l, n - 1);
        let g = slug_upto(l, n);
        assert(!ascii_upper(l[n - 1]));
        assert(!ascii_upper('-'));
        assert forall|k: int| 0 <= k < g.len() implies !ascii_upper(#[trigger] g[k]) by {
            if k < before.len() {
                assert(g[k] == before[k]);
            }
        }
    }
}

/// The slug of a text of ASCII values holds no capital letter.
pub proof fn lemma_slug_is_lower_case(s: Seq<char>)
    requires
        all_ascii(s),
    ensures
        forall|k: int| 0 <= k < slug(s).len() ==> !ascii_upper(#[trigger] slug(s)[k]),
{
    let l = lowercase(s);
    assert forall|j: int| 0 <= j < l.len() implies !ascii_upper(#[trigger] l[j]) by {
        assert(l[j] == lower_char(s[j]));
        assert(is_ascii(s[j]));
    }
    lemma_slug_upto_lower(l, l.len() as int);
    let whole = slug_upto(l, l.len() as int);
    lemma_drop_trailing(whole, '-', whole.len() as int);
    let g = slug(s);
    assert forall|k: int| 0 <= k < g.len() implies !ascii_upper(#[trigger] g[k]) by {
        assert(g[k] == whole[k]);
    }
}

/// Every block ends after its first line and within the lines, so the walk
/// over the blocks of a document reads every line and comes to an end.
pub proof fn lemma_block_advances(
    ls: Seq<Seq<char>>,
    i: int,
    meta: Meta,
    now: Moment,
    depth: nat,
    chars: Seq<char>,
    counters: Seq<int>,
)
    requires
        0 <= i < ls.len(),
    ensures
        i < block_at(ls, i, meta, now, depth, chars, counters).next <= ls.len(),
{
    let t = trimmed(ls[i]);
    if !blank(ls[i]) && !(underlined_at(ls, i) && !has_prefix(t, ".."@)) && !overlined_at(ls, i) {
        lemma_simple_table_end(ls, i);
        lemma_grid_table_end_from(ls, i + 1);
        lemma_skipped_from(ls, i + 1);
        lemma_directive_end(ls, i + 1);
        lemma_indented_block_end(ls, i + 1);
        lemma_blank_from(ls, i);
        lemma_line_block_end(ls, i);
        lemma_bullet_items(ls, i, now, depth);
        lemma_enumerated_items(ls, i, now, depth);
        lemma_field_entries(ls, i, now, depth);
        lemma_definition_entries(ls, i);
        lemma_paragraph_stop(ls, i, i);
        let end = paragraph_end(ls, i);
        if i < end {
            lemma_indented_block_end(ls, end);
        }
    }
}

/// The values that markup is made of: the backslash, the line feed, the
/// adornment values but for the angle brackets, and the bar, the dot, the
/// round brackets and the slash that begin blocks.
pub open spec fn markup_char(c: char) -> bool {
    c == '\\' || c == '\n' || (adornment_char(c) && c != '<' && c != '>') || c == '|' || c == '.'
        || c == '(' || c == ')' || c == '/'
}

/// A text without markup: it is not empty, holds no value that markup is
/// made of, neither begins nor ends with white space, and does not begin
/// with an angle bracket.
pub open spec fn plain_text(s: Seq<char>) -> bool {
    &&& s.len() > 0
    &&& !is_space(s[0])
    &&& s[0] != '<'
    &&& s[0] != '>'
    &&& !is_space(s[s.len() - 1])
    &&& forall|i: int| 0 <= i < s.len() ==> !markup_char(#[trigger] s[i])
}

proof fn lemma_one_line(s: Seq<char>, i: int)
    requires
        s.len() > 0,
        0 <= i <= s.len(),
        forall|j: int| 0 <= j < s.len() ==> (#[trigger] s[j]) != '\n',
    ensures
        lines_scan(s, 0, i) == seq![s],
    decreases s.len() - i,
{
    if i < s.len() {
        lemma_one_line(s, i + 1);
    } else {
        assert(s.subrange(0, s.len() as int) =~= s);
    }
}

proof fn lemma_trimmed_plain(s: Seq<char>)
    requires
        s.len() > 0,
        !is_space(s[0]),
        !is_space(s[s.len() - 1]),
    ensures
        trimmed(s) == s,
        !blank(s),
        indent(s) == 0,
{
    assert(skip_spaces(s, 0) == 0);
    assert(trimmed_start(s) =~= s);
    assert(drop_spaces(s, s.len() as int) == s.len());
    assert(trimmed_end(s) =~= s);
}

proof fn lemma_no_char(s: Seq<char>, c: char)
    requires
        forall|j: int| 0 <= j < s.len() ==> (#[trigger] s[j]) != c,
    ensures
        !has_char(s, c),
{
    lemma_find_char_from(s, c, 0);
}

proof fn lemma_enumerator_end(s: Seq<char>, i: int)
    requires
        0 <= i <= s.len(),
    ensures
        i <= enumerator_end(s, i) <= s.len(),
        enumerator_end(s, i) < s.len() ==> s[enumerator_end(s, i)] == '.' || s[enumerator_end(
            s,
            i,
        )] == ')' || s[enumerator_end(s, i)] == ' ',
    decreases s.len() - i,
{
    if i < s.len() && s[i] != '.' && s[i] != ')' && s[i] != ' ' {
        lemma_enumerator_end(s, i + 1);
    }
}

/// The inline markup of a text without markup is its escaped form.
proof fn lemma_plain_inline(s: Seq<char>, n: int)
    requires
        0 <= n <= s.len(),
        forall|i: int| 0 <= i < s.len() ==> !markup_char(#[trigger] s[i]),
    ensures
        escaped_upto(s, s.len() as int) == escaped_upto(s, n) + inline_from(s, n),
    decreases s.len() - n,
{
    if n < s.len() {
        lemma_plain_inline(s, n + 1);
        let c = s[n];
        assert(!markup_char(c));
        assert(inline_span(s, n) == (plain_one(c), n + 1));
        assert(escape_one(c) == plain_one(c));
        assert(inline_from(s, n) == plain_one(c) + inline_from(s, n + 1));
        assert(escaped_upto(s, n + 1) == escaped_upto(s, n) + escape_one(c));
        assert((escaped_upto(s, n) + escape_one(c)) + inline_from(s, n + 1) =~= escaped_upto(s, n)
            + (plain_one(c) + inline_from(s, n + 1)));
    } else {
        assert(escaped_upto(s, n) + Seq::<char>::empty() =~= escaped_upto(s, n));
    }
}

/// A text without markup is one paragraph.
proof fn lemma_plain_block(s: Seq<char>, now: Moment, depth: nat)
    requires
        plain_text(s),
    ensures
        plain_block(seq![s], 0, empty_meta(), now, depth) == (
            "<p>"@ + escaped(s) + "</p>\n"@,
            1int,
        ),
{
    let ls = seq![s];
    assert(ls[0] == s);
    lemma_trimmed_plain(s);
    let t = trimmed(s);
    assert(!markup_char(s[0]));
    assert(!markup_char(s[s.len() - 1]));
    reveal_strlit(".. ");
    reveal_strlit("::");
    reveal_strlit(">>>");
    reveal_strlit("|");
    reveal_strlit("| ");
    assert(!adornment_run(t));
    assert(!table_border(t)) by {
        lemma_no_char(t, '=');
    }
    assert(!grid_border_like(t));
    assert(early_block(ls, 0) is None);
    assert(!has_prefix(t, ".. "@)) by {
        if has_prefix(t, ".. "@) {
            assert(t.subrange(0, 3)[0] == '.');
        }
    }
    assert(middle_block(ls, 0) is None) by {
        if t == "::"@ {
            assert(t[0] == ':');
        }
        if has_prefix(t, ">>>"@) {
            assert(t.subrange(0, 3)[0] == '>');
        }
        if t == "|"@ {
            assert(t[0] == '|');
        }
        if has_prefix(t, "| "@) {
            assert(t.subrange(0, 2)[0] == '|');
        }
    }
    assert(!bullet_start(t));
    assert(!enumerated(trimmed(t))) by {
        lemma_enumerator_end(t, 0);
        let e = enumerator_end(t, 0);
        if e < t.len() {
            assert(!markup_char(t[e]));
        }
    }
    assert(!field_at(t));
    assert(!definition_at(ls, 0));
    assert(!option_line(t));
    assert(late_block(ls, 0) is None);
    assert(paragraph_stop(ls, 0, 1) == 1);
    assert(paragraph_stop(ls, 0, 0) == 1);
    assert(!stops_at_title(ls, 0));
    assert(paragraph_end(ls, 0) == 1);
    let w = trimmed_window(ls, 0, 1);
    assert(w.len() == 1 && w[0] == s);
    assert(join_between(w, " "@, 0, 1) == s);
    assert(paragraph_text(ls, 0) == s);
    assert(!has_suffix(s, "::"@)) by {
        if has_suffix(s, "::"@) {
            assert(s.subrange(s.len() - 2, s.len() as int)[1] == ':');
        }
    }
    lemma_plain_inline(s, 0);
    assert(inline_html(s) == escaped(s)) by {
        assert(Seq::<char>::empty() + inline_from(s, 0) =~= inline_from(s, 0));
    }
    assert(paragraph_block(ls, 0) == ("<p>"@ + inline_html(s) + "</p>\n"@, 1int));
}

/// A text without markup converts to one paragraph that holds the text
/// with its entities escaped.
pub proof fn lemma_plain_text_is_a_paragraph(s: Seq<char>, now: Moment)
    requires
        plain_text(s),
    ensures
        document_html(s, now) == "<p>"@ + escaped(s) + "</p>\n"@,
{
    let ls = lines_of(s);
    assert forall|j: int| 0 <= j < s.len() implies (#[trigger] s[j]) != '\n' by {
        assert(!markup_char(s[j]));
    }
    lemma_one_line(s, 0);
    assert(ls == seq![s]);
    assert(ls[0] == s);
    lemma_trimmed_plain(s);
    reveal_strlit(".. ");
    reveal_strlit("..");
    assert(!markup_char(s[0]));
    assert(!has_prefix(s, ".. "@)) by {
        if has_prefix(s, ".. "@) {
            assert(s.subrange(0, 3)[0] == '.');
        }
    }
    let meta = empty_meta();
    assert(!underlined_at(ls, 0));
    assert(!overlined_at(ls, 0));
    assert(meta_from(ls, 1, meta, now) == meta);
    assert(analyzed(ls, now) == meta);
    let depth = MAX_DEPTH as nat;
    lemma_plain_block(s, now, depth);
    let para = "<p>"@ + escaped(s) + "</p>\n"@;
    let step = block_at(ls, 0, meta, now, depth, meta.section_chars, no_counts());
    assert(step.html == para && step.next == 1);
    assert(blocks_from(ls, 1, meta, now, depth, step.chars, step.counters) == Seq::<char>::empty());
    assert(blocks_from(ls, 0, meta, now, depth, meta.section_chars, no_counts()) == para) by {
        assert(para + Seq::<char>::empty() =~= para);
    }
    assert(second_pass_html(ls, meta, now, depth) == para) by {
        assert(Seq::<char>::empty() + para + Seq::<char>::empty() =~= para);
    }
    assert(resolved_upto(para, meta.substitutions, 0) == para);
}

} // verus!
