//! The converter: two passes over the lines of a document, and the blocks
//! that render their content by entering the converter again.

use vstd::prelude::*;
use crate::analysis::{
    analyzed, first_pass, is_overlined, is_underlined, overlined_at, underlined_at,
};
use crate::blocks::{
    after_blanks, blank_from, collect_directive, collect_doctest_block, collect_grid_table,
    collect_indented_block, collect_option_list, collect_paragraph, collect_simple_table,
    convert_line_block, directive_content, directive_end, directive_options, grid_table_end_from,
    indented_end, indented_text, is_enumerated_item, is_simple_table_border, line_block_end,
    line_block_html, line_block_line, paragraph_end, paragraph_text, simple_table_end,
    skip_indented_block, skipped_from, table_border, trimmed_window,
};
use crate::clock::{asks_for_date, mentions_date, moment_if, start_of_1970, Moment};
use crate::directives::{
    Directive, directive_html, DirectiveInfo, DirectiveView, figure_legend, has_body, legend_of,
    render_directive_with, uses_body, uses_legend,
};
use crate::html_utils::{dedent_text, dedented, escape, escaped, slug, slugify_text};
use crate::inline::{inline_html, process_inline_text};
use crate::items::{
    collect_field_value, collect_list_item_content, convert_definition_list, definition_entries,
    definition_list_html, field_value_scan, item_html, item_scan, item_source,
    lemma_field_value_scan, lemma_item_scan, nested_source, nesting, render_list_item_content,
    Nesting,
};
use crate::lines::{join_between, joined, lines_of, lines_view, split_lines};
use crate::lists::{
    bullet_start, convert_option_list_text, is_bullet_start, is_option_line_text,
    is_option_list_text, option_line, option_list, option_list_html, strip_bullet_marker_text,
    strip_enumerated_marker_text, without_bullet, without_enumerator,
};
use crate::number::{decimal, decimal_of};
use crate::parser::{
    adornment_run, colon_name, colon_parts, colon_value, directive_parts, enumerated,
    grid_border_like, is_section_adornment, is_grid_border_like, parse_directive, second_colon,
};
use crate::search::{
    begins_with_char, ends_with, find_char_from, find_char_in, first_is, has_char, has_prefix,
    has_suffix, starts_with,
};
use crate::state::{
    assigned, ConverterState, ConvertOptions, empty_meta, get_or_assign_level, level_of, Meta,
    resolve_substitutions, resolved,
};
use crate::tables::grid::{
    convert_grid_table_text, grid_table, grid_table_html, is_grid_table_text, positions_view,
};
use crate::tables::simple::{
    convert_simple_table_text, fallback_paragraph, paragraph_of, simple_table_html,
};
use crate::text::{
    blank, chars_of, concat3, concat5, copy_text, extend, indent, indent_of, is_blank, is_str,
    lemma_concat_assoc, push_str, skip, string_of, trim, trim_end_char, trimmed, without_trailing,
};

verus! {

/// How deep blocks may enter the converter again. Content that lies deeper
/// is written as an escaped paragraph.
pub const MAX_DEPTH: usize = 100;

/// The number of counters of section numbers: one for each level, and one
/// that is not used.
pub const LEVELS: usize = 256;

/// What rendering one block gives: its HTML, the index after the block, and
/// what is known of the adornments and of the section numbers after it.
pub struct Step {
    pub html: Seq<char>,
    pub next: int,
    pub chars: Seq<char>,
    pub counters: Seq<int>,
}

/// The counters once a title of the given level is counted: the counter
/// of that level is one more, those of the deeper levels are nought.
pub open spec fn bumped(c: Seq<int>, level: int) -> Seq<int> {
    Seq::new(
        c.len(),
        |k: int|
            if k == level {
                c[k] + 1
            } else if k > level {
                0
            } else {
                c[k]
            },
    )
}

/// The counters of the levels one to `n`, with dots between them.
pub open spec fn dotted(c: Seq<int>, n: int) -> Seq<char>
    decreases n,
{
    if n <= 1 {
        decimal(c[1] as nat)
    } else {
        dotted(c, n - 1) + "."@ + decimal(c[n] as nat)
    }
}

/// Whether a title of the given level gets a number.
pub open spec fn numbered(meta: Meta, level: int) -> bool {
    meta.sectnum && level <= meta.sectnum_depth
}

/// The heading of the given level: its identifier is the slug of the title, and
/// the number prefix comes before the title.
pub open spec fn heading_html(level: int, title: Seq<char>, prefix: Seq<char>) -> Seq<char> {
    "<h"@ + decimal(level as nat) + " id=\""@ + slug(title) + "\">"@ + prefix + inline_html(title)
        + "</h"@ + decimal(level as nat) + ">\n"@
}

/// The heading of a title that `c` adorns, and what is known after it;
/// `next` is the index after the title and its adornment.
pub open spec fn heading_step(
    title: Seq<char>,
    c: char,
    next: int,
    meta: Meta,
    chars: Seq<char>,
    counters: Seq<int>,
) -> Step {
    let level = level_of(chars, c);
    let counted = if numbered(meta, level) {
        bumped(counters, level)
    } else {
        counters
    };
    let prefix = if numbered(meta, level) {
        meta.sectnum_prefix + dotted(counted, level) + meta.sectnum_suffix + " "@
    } else {
        Seq::empty()
    };
    Step {
        html: heading_html(level, title, prefix),
        next,
        chars: assigned(chars, c),
        counters: counted,
    }
}

/// The literal block that begins at or after line `from`, and the index
/// after it.
pub open spec fn literal_block(ls: Seq<Seq<char>>, from: int) -> (Seq<char>, int) {
    let content = indented_text(ls, from);
    (
        if content.len() > 0 {
            "<pre class=\"nohighlight\"><code>"@ + escaped(trimmed(dedented(content)))
                + "</code></pre>\n"@
        } else {
            Seq::empty()
        },
        indented_end(ls, after_blanks(ls, from)),
    )
}

/// A block that is tried before explicit markup: a transition, a simple
/// table, a grid table.
pub open spec fn early_block(ls: Seq<Seq<char>>, i: int) -> Option<(Seq<char>, int)> {
    let t = trimmed(ls[i]);
    let simple = join_between(ls, "\n"@, i, simple_table_end(ls, i));
    let grid = join_between(ls, "\n"@, i, grid_table_end_from(ls, i + 1));
    if adornment_run(t) && (i == 0 || blank(ls[i - 1])) && (i + 1 >= ls.len() || blank(ls[i + 1])) {
        Some(("<hr>\n"@, i + 1))
    } else if table_border(t) && simple.len() > 0 {
        Some((simple_table_html(simple) + "\n"@, simple_table_end(ls, i)))
    } else if grid_border_like(t) && grid_table(grid) {
        Some((grid_table_html(grid) + "\n"@, grid_table_end_from(ls, i + 1)))
    } else {
        None
    }
}

/// A block that is tried after explicit markup and before lists: a literal
/// block after `::`, a doctest block, a line block.
pub open spec fn middle_block(ls: Seq<Seq<char>>, i: int) -> Option<(Seq<char>, int)> {
    let t = trimmed(ls[i]);
    if t == "::"@ {
        Some(literal_block(ls, i + 1))
    } else if has_prefix(t, ">>>"@) {
        Some(
            (
                "<pre class=\"doctest\"><code class=\"language-python\">"@ + escaped(
                    join_between(ls, "\n"@, i, blank_from(ls, i)),
                ) + "</code></pre>\n"@,
                blank_from(ls, i),
            ),
        )
    } else if line_block_line(t) {
        Some((line_block_html(ls, i) + "\n"@, line_block_end(ls, i)))
    } else {
        None
    }
}

/// Whether a definition list begins at line `i`: a line that is not
/// indented, and after it an indented line that is neither blank, nor
/// explicit markup, nor an adornment.
pub open spec fn definition_at(ls: Seq<Seq<char>>, i: int) -> bool {
    indent(ls[i]) == 0 && i + 1 < ls.len() && indent(ls[i + 1]) > 0 && !blank(ls[i + 1])
        && !has_prefix(trimmed(ls[i + 1]), ".."@) && !adornment_run(trimmed(ls[i + 1]))
}

/// A block that is tried after lists: a definition list, an option list.
pub open spec fn late_block(ls: Seq<Seq<char>>, i: int) -> Option<(Seq<char>, int)> {
    let t = trimmed(ls[i]);
    let options = joined(trimmed_window(ls, i, blank_from(ls, i)), "\n"@);
    if definition_at(ls, i) {
        Some((definition_list_html(ls, i) + "\n"@, definition_entries(ls, i).1))
    } else if option_line(t) && option_list(options) {
        Some((option_list_html(options, i as nat, false) + "\n"@, blank_from(ls, i)))
    } else {
        None
    }
}

/// The paragraph at line `i`, and the index after it. A paragraph that
/// ends in `::` ends in one colon and is followed by a literal block. A
/// line that a short adornment follows is a paragraph of its own.
pub open spec fn paragraph_block(ls: Seq<Seq<char>>, i: int) -> (Seq<char>, int) {
    let para = paragraph_text(ls, i);
    let end = paragraph_end(ls, i);
    if end <= i {
        ("<p>"@ + inline_html(trimmed(ls[i])) + "</p>\n"@, i + 1)
    } else if para.len() == 0 {
        (Seq::empty(), end)
    } else if has_suffix(para, "::"@) {
        (
            (if para == "::"@ {
                Seq::empty()
            } else {
                "<p>"@ + inline_html(without_trailing(para, ':')) + ":</p>\n"@
            }) + literal_block(ls, end).0,
            literal_block(ls, end).1,
        )
    } else {
        ("<p>"@ + inline_html(para) + "</p>\n"@, end)
    }
}

/// Whether a field list begins with the trimmed line `t`: a name between
/// colons that is not empty, and no backquote right after it, which would
/// make the line a role.
pub open spec fn field_at(t: Seq<char>) -> bool {
    first_is(t, ':') && !has_prefix(t, "::"@) && second_colon(t) is Some && colon_name(t).len() > 0
        && !has_char(colon_name(t), '\n') && !first_is(
        t.subrange(second_colon(t).unwrap() + 1, t.len() as int),
        '`',
    )
}

/// Whether the list goes on after the blank line at `i`.
pub open spec fn bullets_follow(ls: Seq<Seq<char>>, i: int) -> bool {
    i + 1 < ls.len() && (bullet_start(trimmed(ls[i + 1])) || (indent(ls[i + 1]) > 0 && !blank(
        ls[i + 1],
    )))
}

/// Whether the enumerated list goes on after the blank line at `i`.
pub open spec fn enumeration_follows(ls: Seq<Seq<char>>, i: int) -> bool {
    i + 1 < ls.len() && (enumerated(trimmed(trimmed(ls[i + 1]))) || (indent(ls[i + 1]) > 0
        && !blank(ls[i + 1])))
}

/// Whether the field list goes on after the blank line at `i`.
pub open spec fn fields_follow(ls: Seq<Seq<char>>, i: int) -> bool {
    i + 1 < ls.len() && ((first_is(trimmed(ls[i + 1]), ':') && !has_prefix(
        trimmed(ls[i + 1]),
        "::"@,
    )) || indent(ls[i + 1]) > 0)
}

/// Content rendered as blocks inside a block at the given depth; an
/// escaped paragraph at the deepest level.
pub open spec fn nested_html(src: Seq<char>, now: Moment, depth: nat) -> Seq<char>
    decreases depth, 0int, 0int,
{
    if depth == 0 {
        fallback_paragraph(src)
    } else {
        content_html(src, now, (depth - 1) as nat)
    }
}

/// The directive whose first line is line `i`, with the name `name` and
/// the arguments `args`.
pub open spec fn directive_at(ls: Seq<Seq<char>>, i: int, name: Seq<char>, args: Seq<char>)
    -> DirectiveView {
    DirectiveView {
        name,
        arguments: args,
        options: directive_options(ls, i + 1),
        content: directive_content(ls, i + 1),
    }
}

/// The HTML of a directive, whose content and legend are rendered as
/// blocks where its kind asks for that.
pub open spec fn directive_block(d: DirectiveView, meta: Meta, now: Moment, depth: nat) -> Seq<
    char,
>
    decreases depth, 1int, 0int,
{
    directive_html(
        d,
        meta,
        now,
        if uses_body(d) {
            nested_html(d.content, now, depth)
        } else {
            Seq::empty()
        },
        if uses_legend(d) {
            nested_html(figure_legend(d.content).unwrap(), now, depth)
        } else {
            Seq::empty()
        },
    )
}

/// The block that the explicit markup at line `i` makes, where `rest` is
/// what follows `.. ` on that line: nothing for a substitution definition,
/// a target and a comment, and the HTML of a directive.
pub open spec fn explicit_block(
    ls: Seq<Seq<char>>,
    i: int,
    rest: Seq<char>,
    meta: Meta,
    now: Moment,
    depth: nat,
) -> (Seq<char>, int)
    decreases depth, 2int, 0int,
{
    if first_is(rest, '|') && find_char_from(rest, '|', 1) is Some {
        (Seq::empty(), skipped_from(ls, i + 1))
    } else if first_is(rest, '_') {
        (Seq::empty(), i + 1)
    } else if directive_parts(rest) is Some {
        let (name, args) = directive_parts(rest).unwrap();
        let html = directive_block(directive_at(ls, i, name, args), meta, now, depth);
        (
            if html.len() > 0 {
                html + "\n"@
            } else {
                Seq::empty()
            },
            directive_end(ls, i + 1),
        )
    } else {
        (Seq::empty(), skipped_from(ls, i + 1))
    }
}

/// The item of a list whose content is `content`.
pub open spec fn list_item(content: Seq<char>, now: Moment, depth: nat) -> Seq<char>
    decreases depth, 1int, 0int,
{
    "<li>"@ + item_html(content, nested_html(item_source(content), now, depth)) + "</li>\n"@
}

/// The items of a bullet list from line `i` on, and the index after the
/// list.
pub open spec fn bullet_items(ls: Seq<Seq<char>>, i: int, now: Moment, depth: nat) -> (
    Seq<char>,
    int,
)
    decreases depth, 2int, ls.len() - i,
    via bullet_items_decreases
{
    if i < 0 || i >= ls.len() {
        (Seq::empty(), i)
    } else if blank(ls[i]) {
        if bullets_follow(ls, i) {
            bullet_items(ls, i + 1, now, depth)
        } else {
            (Seq::empty(), i)
        }
    } else if bullet_start(trimmed(ls[i])) {
        let item = item_scan(ls, i + 1, without_bullet(trimmed(ls[i])));
        let rest = bullet_items(ls, item.1, now, depth);
        (list_item(item.0, now, depth) + rest.0, rest.1)
    } else {
        (Seq::empty(), i)
    }
}

#[via_fn]
proof fn bullet_items_decreases(ls: Seq<Seq<char>>, i: int, now: Moment, depth: nat) {
    if 0 <= i < ls.len() {
        lemma_item_scan(ls, i + 1, without_bullet(trimmed(ls[i])));
    }
}

/// The items of an enumerated list from line `i` on, and the index after
/// the list. An indented line between the items is passed over.
pub open spec fn enumerated_items(ls: Seq<Seq<char>>, i: int, now: Moment, depth: nat) -> (
    Seq<char>,
    int,
)
    decreases depth, 2int, ls.len() - i,
    via enumerated_items_decreases
{
    if i < 0 || i >= ls.len() {
        (Seq::empty(), i)
    } else if blank(ls[i]) {
        if enumeration_follows(ls, i) {
            enumerated_items(ls, i + 1, now, depth)
        } else {
            (Seq::empty(), i)
        }
    } else if enumerated(trimmed(trimmed(ls[i]))) {
        let item = item_scan(ls, i + 1, without_enumerator(trimmed(ls[i])));
        let rest = enumerated_items(ls, item.1, now, depth);
        (list_item(item.0, now, depth) + rest.0, rest.1)
    } else if indent(ls[i]) > 0 {
        enumerated_items(ls, i + 1, now, depth)
    } else {
        (Seq::empty(), i)
    }
}

#[via_fn]
proof fn enumerated_items_decreases(ls: Seq<Seq<char>>, i: int, now: Moment, depth: nat) {
    if 0 <= i < ls.len() {
        lemma_item_scan(ls, i + 1, without_enumerator(trimmed(ls[i])));
    }
}

/// The description of a field whose value is `value`.
pub open spec fn field_body(value: Seq<char>, now: Moment, depth: nat) -> Seq<char>
    decreases depth, 1int, 0int,
{
    if value.len() == 0 {
        "<dd></dd>\n"@
    } else {
        "<dd>"@ + nested_html(trimmed(value), now, depth) + "</dd>\n"@
    }
}

/// The entries of a field list from line `i` on, and the index after the
/// list.
pub open spec fn field_entries(ls: Seq<Seq<char>>, i: int, now: Moment, depth: nat) -> (
    Seq<char>,
    int,
)
    decreases depth, 2int, ls.len() - i,
    via field_entries_decreases
{
    if i < 0 || i >= ls.len() {
        (Seq::empty(), i)
    } else if blank(ls[i]) {
        if fields_follow(ls, i) {
            field_entries(ls, i + 1, now, depth)
        } else {
            (Seq::empty(), i)
        }
    } else if first_is(trimmed(ls[i]), ':') && !has_prefix(trimmed(ls[i]), "::"@) && second_colon(
        trimmed(ls[i]),
    ) is Some {
        let value = field_value_scan(ls, i + 1, colon_value(trimmed(ls[i])));
        let rest = field_entries(ls, value.1, now, depth);
        (
            "<dt>"@ + escaped(colon_name(trimmed(ls[i]))) + "</dt>\n"@ + field_body(
                value.0,
                now,
                depth,
            ) + rest.0,
            rest.1,
        )
    } else {
        (Seq::empty(), i)
    }
}

#[via_fn]
proof fn field_entries_decreases(ls: Seq<Seq<char>>, i: int, now: Moment, depth: nat) {
    if 0 <= i < ls.len() {
        lemma_field_value_scan(ls, i + 1, colon_value(trimmed(ls[i])));
    }
}

/// A bullet list ends within the lines, and after its first line if that
/// line is an item.
pub proof fn lemma_bullet_items(ls: Seq<Seq<char>>, i: int, now: Moment, depth: nat)
    requires
        0 <= i <= ls.len(),
    ensures
        i <= bullet_items(ls, i, now, depth).1 <= ls.len(),
        i < ls.len() && !blank(ls[i]) && bullet_start(trimmed(ls[i])) ==> i < bullet_items(
            ls,
            i,
            now,
            depth,
        ).1,
    decreases ls.len() - i,
{
    if i < ls.len() {
        if blank(ls[i]) {
            if bullets_follow(ls, i) {
                lemma_bullet_items(ls, i + 1, now, depth);
            }
        } else if bullet_start(trimmed(ls[i])) {
            let item = item_scan(ls, i + 1, without_bullet(trimmed(ls[i])));
            lemma_item_scan(ls, i + 1, without_bullet(trimmed(ls[i])));
            lemma_bullet_items(ls, item.1, now, depth);
        }
    }
}

/// An enumerated list ends within the lines, and after its first line if
/// that line is an item.
pub proof fn lemma_enumerated_items(ls: Seq<Seq<char>>, i: int, now: Moment, depth: nat)
    requires
        0 <= i <= ls.len(),
    ensures
        i <= enumerated_items(ls, i, now, depth).1 <= ls.len(),
        i < ls.len() && !blank(ls[i]) && enumerated(trimmed(trimmed(ls[i]))) ==> i
            < enumerated_items(ls, i, now, depth).1,
    decreases ls.len() - i,
{
    if i < ls.len() {
        if blank(ls[i]) {
            if enumeration_follows(ls, i) {
                lemma_enumerated_items(ls, i + 1, now, depth);
            }
        } else if enumerated(trimmed(trimmed(ls[i]))) {
            let item = item_scan(ls, i + 1, without_enumerator(trimmed(ls[i])));
            lemma_item_scan(ls, i + 1, without_enumerator(trimmed(ls[i])));
            lemma_enumerated_items(ls, item.1, now, depth);
        } else if indent(ls[i]) > 0 {
            lemma_enumerated_items(ls, i + 1, now, depth);
        }
    }
}

/// A field list ends within the lines, and after its first line if that
/// line is a field.
pub proof fn lemma_field_entries(ls: Seq<Seq<char>>, i: int, now: Moment, depth: nat)
    requires
        0 <= i <= ls.len(),
    ensures
        i <= field_entries(ls, i, now, depth).1 <= ls.len(),
        i < ls.len() && !blank(ls[i]) && field_at(trimmed(ls[i])) ==> i < field_entries(
            ls,
            i,
            now,
            depth,
        ).1,
    decreases ls.len() - i,
{
    if i < ls.len() {
        if blank(ls[i]) {
            if fields_follow(ls, i) {
                lemma_field_entries(ls, i + 1, now, depth);
            }
        } else if first_is(trimmed(ls[i]), ':') && !has_prefix(trimmed(ls[i]), "::"@)
            && second_colon(trimmed(ls[i])) is Some {
            let value = field_value_scan(ls, i + 1, colon_value(trimmed(ls[i])));
            lemma_field_value_scan(ls, i + 1, colon_value(trimmed(ls[i])));
            lemma_field_entries(ls, value.1, now, depth);
        }
    }
}

/// A block that does not touch what is known of the adornments: the HTML
/// and the index after the block.
pub open spec fn plain_block(ls: Seq<Seq<char>>, i: int, meta: Meta, now: Moment, depth: nat) -> (
    Seq<char>,
    int,
)
    decreases depth, 3int, 0int,
{
    let t = trimmed(ls[i]);
    if early_block(ls, i) is Some {
        early_block(ls, i).unwrap()
    } else if has_prefix(t, ".. "@) {
        explicit_block(ls, i, t.subrange(3, t.len() as int), meta, now, depth)
    } else if middle_block(ls, i) is Some {
        middle_block(ls, i).unwrap()
    } else if bullet_start(t) && t.len() > 2 {
        (
            "<ul>\n"@ + bullet_items(ls, i, now, depth).0 + "</ul>\n"@,
            bullet_items(ls, i, now, depth).1,
        )
    } else if enumerated(trimmed(t)) {
        (
            "<ol>\n"@ + enumerated_items(ls, i, now, depth).0 + "</ol>\n"@,
            enumerated_items(ls, i, now, depth).1,
        )
    } else if field_at(t) {
        (
            "<dl>\n"@ + field_entries(ls, i, now, depth).0 + "</dl>\n"@,
            field_entries(ls, i, now, depth).1,
        )
    } else if late_block(ls, i) is Some {
        late_block(ls, i).unwrap()
    } else {
        paragraph_block(ls, i)
    }
}

/// The block at line `i`. The kinds of block are tried in a fixed order:
/// blank line, underlined title, overlined title, transition, simple
/// table, grid table, explicit markup, literal block, doctest block, line
/// block, bullet list, enumerated list, field list, definition list,
/// option list, paragraph.
pub open spec fn block_at(
    ls: Seq<Seq<char>>,
    i: int,
    meta: Meta,
    now: Moment,
    depth: nat,
    chars: Seq<char>,
    counters: Seq<int>,
) -> Step
    decreases depth, 4int, 0int,
{
    if blank(ls[i]) {
        Step { html: Seq::empty(), next: i + 1, chars, counters }
    } else if underlined_at(ls, i) && !has_prefix(trimmed(ls[i]), ".."@) {
        heading_step(trimmed(ls[i]), trimmed(ls[i + 1])[0], i + 2, meta, chars, counters)
    } else if overlined_at(ls, i) {
        heading_step(trimmed(ls[i + 1]), trimmed(ls[i])[0], i + 3, meta, chars, counters)
    } else {
        Step {
            html: plain_block(ls, i, meta, now, depth).0,
            next: plain_block(ls, i, meta, now, depth).1,
            chars,
            counters,
        }
    }
}

/// The HTML of the blocks from line `i` on. Every block ends after its
/// first line, so the walk always moves on.
pub open spec fn blocks_from(
    ls: Seq<Seq<char>>,
    i: int,
    meta: Meta,
    now: Moment,
    depth: nat,
    chars: Seq<char>,
    counters: Seq<int>,
) -> Seq<char>
    decreases depth, 5int, ls.len() - i,
{
    if i < 0 || i >= ls.len() {
        Seq::empty()
    } else {
        let step = block_at(ls, i, meta, now, depth, chars, counters);
        if i < step.next <= ls.len() {
            step.html + blocks_from(ls, step.next, meta, now, depth, step.chars, step.counters)
        } else {
            step.html
        }
    }
}

/// The counters before any title is counted.
pub open spec fn no_counts() -> Seq<int> {
    Seq::new(LEVELS as nat, |k: int| 0int)
}

/// The HTML of content that stands by itself: nothing for blank content,
/// else its blocks, rendered with nothing known of any document.
pub open spec fn content_html(content: Seq<char>, now: Moment, depth: nat) -> Seq<char>
    decreases depth, 6int, 0int,
{
    if blank(content) {
        Seq::empty()
    } else {
        blocks_from(lines_of(content), 0, empty_meta(), now, depth, Seq::empty(), no_counts())
    }
}

/// The header or the footer of a document between its tags, where there is one.
pub open spec fn framed(o: Option<Seq<char>>, open: Seq<char>, close: Seq<char>) -> Seq<char> {
    match o {
        Some(t) => open + inline_html(t) + close,
        None => Seq::empty(),
    }
}

/// What the second pass writes: the header, the blocks, the footer.
pub open spec fn second_pass_html(ls: Seq<Seq<char>>, meta: Meta, now: Moment, depth: nat) -> Seq<
    char,
> {
    framed(meta.header_content, "<header>"@, "</header>\n"@) + blocks_from(
        ls,
        0,
        meta,
        now,
        depth,
        meta.section_chars,
        no_counts(),
    ) + framed(meta.footer_content, "<footer>"@, "</footer>\n"@)
}

/// The HTML of a document converted at the moment `now`: the first pass
/// reads what the document says of itself, the second pass renders the
/// blocks, and at last the references to substitutions are resolved.
pub open spec fn document_html(text: Seq<char>, now: Moment) -> Seq<char> {
    let ls = lines_of(text);
    let meta = analyzed(ls, now);
    resolved(second_pass_html(ls, meta, now, MAX_DEPTH as nat), meta.substitutions)
}

fn bump(counters: &mut Vec<usize>, level: usize)
    requires
        old(counters).len() == LEVELS,
        level < LEVELS,
        old(counters)@[level as int] < usize::MAX,
    ensures
        final(counters).len() == LEVELS,
        positions_view(final(counters)@) == bumped(positions_view(old(counters)@), level as int),
{
    let ghost before = positions_view(counters@);
    let now = counters[level] + 1;
    counters.set(level, now);
    let mut k: usize = level + 1;
    while k < LEVELS
        invariant
            level < k <= LEVELS,
            counters.len() == LEVELS,
            before.len() == LEVELS,
            forall|j: int| 0 <= j < level ==> counters@[j] == before[j],
            counters@[level as int] == before[level as int] + 1,
            forall|j: int| level < j < k ==> counters@[j] == 0,
            forall|j: int| k <= j < LEVELS ==> counters@[j] == before[j],
        decreases LEVELS - k,
    {
        counters.set(k, 0);
        k += 1;
    }
    assert(positions_view(counters@) =~= bumped(before, level as int));
}

fn dotted_of(counters: &Vec<usize>, level: usize) -> (r: Vec<char>)
    requires
        counters.len() == LEVELS,
        1 <= level < LEVELS,
    ensures
        r@ == dotted(positions_view(counters@), level as int),
{
    let ghost cv = positions_view(counters@);
    assert(cv[1] == counters@[1]);
    let mut out = decimal_of(counters[1] as u128);
    let mut n: usize = 1;
    while n < level
        invariant
            1 <= n <= level < LEVELS,
            counters.len() == LEVELS,
            cv == positions_view(counters@),
            out@ == dotted(cv, n as int),
        decreases level - n,
    {
        n += 1;
        assert(cv[n as int] == counters@[n as int]);
        push_str(&mut out, ".");
        let d = decimal_of(counters[n] as u128);
        extend(&mut out, &d);
    }
    out
}

fn heading(level: u8, title: &Vec<char>, prefix: &Vec<char>) -> (r: Vec<char>)
    ensures
        r@ == heading_html(level as int, title@, prefix@),
{
    let digits = decimal_of(level as u128);
    let id = slugify_text(title);
    let mut out = concat5("<h", &digits, " id=\"", &id, "\">");
    extend(&mut out, prefix);
    let h = process_inline_text(title);
    extend(&mut out, &h);
    push_str(&mut out, "</h");
    extend(&mut out, &digits);
    push_str(&mut out, ">\n");
    out
}

fn render_heading(
    title: &Vec<char>,
    c: char,
    next: usize,
    state: &ConverterState,
    chars: &mut Vec<char>,
    counters: &mut Vec<usize>,
) -> (r: Vec<char>)
    requires
        old(counters).len() == LEVELS,
        forall|k: int| 0 <= k < LEVELS ==> (#[trigger] old(counters)@[k]) < next,
    ensures
        ({
            let step = heading_step(
                title@,
                c,
                next as int,
                state@,
                old(chars)@,
                positions_view(old(counters)@),
            );
            &&& r@ == step.html
            &&& final(chars)@ == step.chars
            &&& positions_view(final(counters)@) == step.counters
        }),
        final(counters).len() == LEVELS,
        forall|k: int| 0 <= k < LEVELS ==> (#[trigger] final(counters)@[k]) <= next,
{
    let level = get_or_assign_level(c, chars);
    let lvl = level as usize;
    let mut prefix: Vec<char> = Vec::new();
    if state.sectnum && lvl <= state.sectnum_depth {
        let ghost before = positions_view(counters@);
        bump(counters, lvl);
        assert forall|k: int| 0 <= k < LEVELS implies (#[trigger] counters@[k]) <= next by {
            assert(positions_view(counters@)[k] == counters@[k]);
            assert(before[k] == old(counters)@[k]);
        }
        prefix = chars_of(state.sectnum_prefix.as_str());
        let nums = dotted_of(counters, lvl);
        extend(&mut prefix, &nums);
        let suffix = chars_of(state.sectnum_suffix.as_str());
        extend(&mut prefix, &suffix);
        push_str(&mut prefix, " ");
    }
    heading(level, title, &prefix)
}

/// A rendered block over mathematical texts.
pub open spec fn block_view(r: Option<(Vec<char>, usize)>) -> Option<(Seq<char>, int)> {
    match r {
        Some((h, n)) => Some((h@, n as int)),
        None => None,
    }
}

fn render_literal_block(lines: &Vec<Vec<char>>, from: usize) -> (r: (Vec<char>, usize))
    requires
        from <= lines.len(),
    ensures
        (r.0@, r.1 as int) == literal_block(lines_view(lines@), from as int),
        from <= r.1 <= lines.len(),
{
    let (content, end) = collect_indented_block(lines, from);
    if content.len() > 0 {
        let code = dedent_text(&content);
        let t = trim(&code);
        let e = escape(&t);
        (concat3("<pre class=\"nohighlight\"><code>", &e, "</code></pre>\n"), end)
    } else {
        (Vec::new(), end)
    }
}

fn render_early_block(lines: &Vec<Vec<char>>, i: usize, t: &Vec<char>) -> (r: Option<
    (Vec<char>, usize),
>)
    requires
        i < lines.len(),
        t@ == trimmed(lines_view(lines@)[i as int]),
    ensures
        block_view(r) == early_block(lines_view(lines@), i as int),
        r matches Some((_, n)) ==> i < n <= lines.len(),
{
    let ghost ls = lines_view(lines@);
    if is_section_adornment(t) {
        let before = if i == 0 {
            true
        } else {
            assert(ls[i - 1] == lines@[i - 1]@);
            is_blank(&lines[i - 1])
        };
        let after = if lines.len() - i <= 1 {
            true
        } else {
            assert(ls[i + 1] == lines@[i + 1]@);
            is_blank(&lines[i + 1])
        };
        if before && after {
            return Some((chars_of("<hr>\n"), i + 1));
        }
    }
    if is_simple_table_border(t) {
        let (text, end) = collect_simple_table(lines, i);
        if text.len() > 0 {
            let mut html = convert_simple_table_text(&text);
            push_str(&mut html, "\n");
            return Some((html, end));
        }
    }
    if is_grid_border_like(t) {
        let (text, end) = collect_grid_table(lines, i);
        if is_grid_table_text(&text) {
            let mut html = convert_grid_table_text(&text);
            push_str(&mut html, "\n");
            return Some((html, end));
        }
    }
    None
}

fn render_middle_block(lines: &Vec<Vec<char>>, i: usize, t: &Vec<char>) -> (r: Option<
    (Vec<char>, usize),
>)
    requires
        i < lines.len(),
        !blank(lines_view(lines@)[i as int]),
        t@ == trimmed(lines_view(lines@)[i as int]),
    ensures
        block_view(r) == middle_block(lines_view(lines@), i as int),
        r matches Some((_, n)) ==> i < n <= lines.len(),
{
    if is_str(t, "::") {
        return Some(render_literal_block(lines, i + 1));
    }
    if starts_with(t, ">>>") {
        let (block, end) = collect_doctest_block(lines, i);
        let e = escape(&block);
        return Some(
            (
                concat3(
                    "<pre class=\"doctest\"><code class=\"language-python\">",
                    &e,
                    "</code></pre>\n",
                ),
                end,
            ),
        );
    }
    if is_str(t, "|") || starts_with(t, "| ") {
        let (mut html, end) = convert_line_block(lines, i);
        push_str(&mut html, "\n");
        return Some((html, end));
    }
    None
}

fn is_definition_at(lines: &Vec<Vec<char>>, i: usize) -> (b: bool)
    requires
        i < lines.len(),
    ensures
        b == definition_at(lines_view(lines@), i as int),
{
    let ghost ls = lines_view(lines@);
    assert(ls[i as int] == lines@[i as int]@);
    if indent_of(&lines[i]) == 0 && lines.len() - i > 1 {
        assert(ls[i + 1] == lines@[i + 1]@);
        if indent_of(&lines[i + 1]) > 0 && !is_blank(&lines[i + 1]) {
            let next = trim(&lines[i + 1]);
            return !starts_with(&next, "..") && !is_section_adornment(&next);
        }
    }
    false
}

fn render_late_block(lines: &Vec<Vec<char>>, i: usize, t: &Vec<char>) -> (r: Option<
    (Vec<char>, usize),
>)
    requires
        i < lines.len(),
        !blank(lines_view(lines@)[i as int]),
        t@ == trimmed(lines_view(lines@)[i as int]),
    ensures
        block_view(r) == late_block(lines_view(lines@), i as int),
        r matches Some((_, n)) ==> i < n <= lines.len(),
{
    if is_definition_at(lines, i) {
        let (mut html, end) = convert_definition_list(lines, i);
        push_str(&mut html, "\n");
        return Some((html, end));
    }
    if is_option_line_text(t) {
        let (text, end) = collect_option_list(lines, i);
        if is_option_list_text(&text) {
            let mut html = convert_option_list_text(&text, i, false);
            push_str(&mut html, "\n");
            return Some((html, end));
        }
    }
    None
}

fn render_paragraph(lines: &Vec<Vec<char>>, i: usize, t: &Vec<char>) -> (r: (Vec<char>, usize))
    requires
        i < lines.len(),
        t@ == trimmed(lines_view(lines@)[i as int]),
    ensures
        (r.0@, r.1 as int) == paragraph_block(lines_view(lines@), i as int),
        i < r.1 <= lines.len(),
{
    let (para, end) = collect_paragraph(lines, i);
    if end <= i {
        let h = process_inline_text(t);
        return (concat3("<p>", &h, "</p>\n"), i + 1);
    }
    if para.len() == 0 {
        return (Vec::new(), end);
    }
    if ends_with(&para, "::") {
        let mut html: Vec<char> = Vec::new();
        if is_str(&para, "::") {
            assert(html@ =~= Seq::<char>::empty());
        } else {
            let bare = trim_end_char(&para, ':');
            let h = process_inline_text(&bare);
            html = concat3("<p>", &h, ":</p>\n");
        }
        let (literal, literal_end) = render_literal_block(lines, end);
        extend(&mut html, &literal);
        return (html, literal_end);
    }
    let h = process_inline_text(&para);
    (concat3("<p>", &h, "</p>\n"), end)
}

fn is_field_at(t: &Vec<char>) -> (b: bool)
    ensures
        b == field_at(t@),
{
    if !begins_with_char(t, ':') || starts_with(t, "::") {
        return false;
    }
    match find_char_in(t, ':', 1) {
        Some(k) => {
            let name = crate::text::copy_range(t, 1, k);
            let after = skip(t, k + 1);
            name.len() > 0 && !crate::search::contains_char(&name, '\n') && !begins_with_char(
                &after,
                '`',
            )
        },
        None => false,
    }
}

/// Renders content as blocks inside a block at the given depth.
fn render_nested(src: &Vec<char>, now: &Moment, depth: usize) -> (r: Vec<char>)
    ensures
        r@ == nested_html(src@, *now, depth as nat),
    decreases depth, 0int,
{
    if depth == 0 {
        paragraph_of(src)
    } else {
        convert_content(src, now, depth - 1)
    }
}

fn render_directive_block(d: &Directive, state: &ConverterState, now: &Moment, depth: usize) -> (r:
    Vec<char>)
    ensures
        r@ == directive_block(d@, state@, *now, depth as nat),
    decreases depth, 1int,
{
    let body = if has_body(d) {
        render_nested(&d.content, now, depth)
    } else {
        Vec::new()
    };
    let legend = match legend_of(d) {
        Some(l) => render_nested(&l, now, depth),
        None => Vec::new(),
    };
    render_directive_with(d, state, now, &body, &legend)
}

fn render_list_item(content: &Vec<char>, now: &Moment, depth: usize) -> (r: Vec<char>)
    ensures
        r@ == list_item(content@, *now, depth as nat),
    decreases depth, 1int,
{
    let body = match nesting(content) {
        Nesting::Nothing => Vec::new(),
        _ => {
            let src = nested_source(content);
            render_nested(&src, now, depth)
        },
    };
    let h = render_list_item_content(content, &body);
    concat3("<li>", &h, "</li>\n")
}

fn render_field_body(value: &Vec<char>, now: &Moment, depth: usize) -> (r: Vec<char>)
    ensures
        r@ == field_body(value@, *now, depth as nat),
    decreases depth, 1int,
{
    if value.len() == 0 {
        chars_of("<dd></dd>\n")
    } else {
        let t = trim(value);
        let h = render_nested(&t, now, depth);
        concat3("<dd>", &h, "</dd>\n")
    }
}

fn render_explicit(
    lines: &Vec<Vec<char>>,
    i: usize,
    rest: &Vec<char>,
    state: &ConverterState,
    now: &Moment,
    depth: usize,
) -> (r: (Vec<char>, usize))
    requires
        i < lines.len(),
    ensures
        (r.0@, r.1 as int) == explicit_block(
            lines_view(lines@),
            i as int,
            rest@,
            state@,
            *now,
            depth as nat,
        ),
        i < r.1 <= lines.len(),
    decreases depth, 2int,
{
    if begins_with_char(rest, '|') && find_char_in(rest, '|', 1).is_some() {
        return (Vec::new(), skip_indented_block(lines, i));
    }
    if begins_with_char(rest, '_') {
        return (Vec::new(), i + 1);
    }
    match parse_directive(rest) {
        Some((name, args)) => {
            let (options, content, end) = collect_directive(lines, i + 1);
            let d = Directive { name, arguments: args, options, content };
            let mut html = render_directive_block(&d, state, now, depth);
            if html.len() > 0 {
                push_str(&mut html, "\n");
            }
            (html, end)
        },
        None => (Vec::new(), skip_indented_block(lines, i)),
    }
}

fn is_bullet_next(lines: &Vec<Vec<char>>, i: usize) -> (b: bool)
    requires
        i < lines.len(),
    ensures
        b == bullets_follow(lines_view(lines@), i as int),
{
    if lines.len() - i > 1 {
        assert(lines_view(lines@)[i + 1] == lines@[i + 1]@);
        let next = trim(&lines[i + 1]);
        is_bullet_start(&next) || (indent_of(&lines[i + 1]) > 0 && !is_blank(&lines[i + 1]))
    } else {
        false
    }
}

fn is_enumeration_next(lines: &Vec<Vec<char>>, i: usize) -> (b: bool)
    requires
        i < lines.len(),
    ensures
        b == enumeration_follows(lines_view(lines@), i as int),
{
    if lines.len() - i > 1 {
        assert(lines_view(lines@)[i + 1] == lines@[i + 1]@);
        let next = trim(&lines[i + 1]);
        is_enumerated_item(&next) || (indent_of(&lines[i + 1]) > 0 && !is_blank(&lines[i + 1]))
    } else {
        false
    }
}

fn is_field_next(lines: &Vec<Vec<char>>, i: usize) -> (b: bool)
    requires
        i < lines.len(),
    ensures
        b == fields_follow(lines_view(lines@), i as int),
{
    if lines.len() - i > 1 {
        assert(lines_view(lines@)[i + 1] == lines@[i + 1]@);
        let next = trim(&lines[i + 1]);
        (begins_with_char(&next, ':') && !starts_with(&next, "::")) || indent_of(&lines[i + 1]) > 0
    } else {
        false
    }
}

/// Renders the items of the bullet list that begins at `start`.
fn convert_bullet_list(lines: &Vec<Vec<char>>, start: usize, now: &Moment, depth: usize) -> (r: (
    Vec<char>,
    usize,
))
    requires
        start < lines.len(),
        !blank(lines_view(lines@)[start as int]),
        bullet_start(trimmed(lines_view(lines@)[start as int])),
    ensures
        (r.0@, r.1 as int) == bullet_items(lines_view(lines@), start as int, *now, depth as nat),
        start < r.1 <= lines.len(),
    decreases depth, 2int,
{
    let ghost ls = lines_view(lines@);
    let ghost whole = bullet_items(ls, start as int, *now, depth as nat);
    let mut items: Vec<char> = Vec::new();
    let mut i: usize = start;
    assert(items@ + whole.0 =~= whole.0);
    while i < lines.len()
        invariant
            start <= i <= lines.len(),
            ls == lines_view(lines@),
            whole == bullet_items(ls, start as int, *now, depth as nat),
            items@ + bullet_items(ls, i as int, *now, depth as nat).0 == whole.0,
            bullet_items(ls, i as int, *now, depth as nat).1 == whole.1,
            i == start ==> !blank(ls[i as int]) && bullet_start(trimmed(ls[i as int])),
        decreases lines.len() - i,
    {
        assert(ls[i as int] == lines@[i as int]@);
        if is_blank(&lines[i]) {
            if is_bullet_next(lines, i) {
                i += 1;
                continue;
            }
            assert(items@ + Seq::<char>::empty() =~= items@);
            return (items, i);
        }
        let t = trim(&lines[i]);
        if is_bullet_start(&t) {
            let first = strip_bullet_marker_text(&t);
            let (content, end) = collect_list_item_content(lines, i, &first);
            let h = render_list_item(&content, now, depth);
            let ghost before = items@;
            extend(&mut items, &h);
            proof {
                lemma_concat_assoc(
                    before,
                    h@,
                    bullet_items(ls, end as int, *now, depth as nat).0,
                );
            }
            i = end;
        } else {
            assert(items@ + Seq::<char>::empty() =~= items@);
            return (items, i);
        }
    }
    assert(items@ + Seq::<char>::empty() =~= items@);
    (items, i)
}

/// Renders the items of the enumerated list that begins at `start`.
fn convert_enumerated_list(lines: &Vec<Vec<char>>, start: usize, now: &Moment, depth: usize) -> (r:
    (Vec<char>, usize))
    requires
        start < lines.len(),
        !blank(lines_view(lines@)[start as int]),
        enumerated(trimmed(trimmed(lines_view(lines@)[start as int]))),
    ensures
        (r.0@, r.1 as int) == enumerated_items(
            lines_view(lines@),
            start as int,
            *now,
            depth as nat,
        ),
        start < r.1 <= lines.len(),
    decreases depth, 2int,
{
    let ghost ls = lines_view(lines@);
    let ghost whole = enumerated_items(ls, start as int, *now, depth as nat);
    let mut items: Vec<char> = Vec::new();
    let mut i: usize = start;
    assert(items@ + whole.0 =~= whole.0);
    while i < lines.len()
        invariant
            start <= i <= lines.len(),
            ls == lines_view(lines@),
            whole == enumerated_items(ls, start as int, *now, depth as nat),
            items@ + enumerated_items(ls, i as int, *now, depth as nat).0 == whole.0,
            enumerated_items(ls, i as int, *now, depth as nat).1 == whole.1,
            i == start ==> !blank(ls[i as int]) && enumerated(trimmed(trimmed(ls[i as int]))),
        decreases lines.len() - i,
    {
        assert(ls[i as int] == lines@[i as int]@);
        if is_blank(&lines[i]) {
            if is_enumeration_next(lines, i) {
                i += 1;
                continue;
            }
            assert(items@ + Seq::<char>::empty() =~= items@);
            return (items, i);
        }
        let t = trim(&lines[i]);
        if is_enumerated_item(&t) {
            let first = strip_enumerated_marker_text(&t);
            let (content, end) = collect_list_item_content(lines, i, &first);
            let h = render_list_item(&content, now, depth);
            let ghost before = items@;
            extend(&mut items, &h);
            proof {
                lemma_concat_assoc(
                    before,
                    h@,
                    enumerated_items(ls, end as int, *now, depth as nat).0,
                );
            }
            i = end;
        } else if indent_of(&lines[i]) > 0 {
            i += 1;
        } else {
            assert(items@ + Seq::<char>::empty() =~= items@);
            return (items, i);
        }
    }
    assert(items@ + Seq::<char>::empty() =~= items@);
    (items, i)
}

/// Renders the entries of the field list that begins at `start`.
fn convert_field_list(lines: &Vec<Vec<char>>, start: usize, now: &Moment, depth: usize) -> (r: (
    Vec<char>,
    usize,
))
    requires
        start < lines.len(),
        !blank(lines_view(lines@)[start as int]),
        field_at(trimmed(lines_view(lines@)[start as int])),
    ensures
        (r.0@, r.1 as int) == field_entries(lines_view(lines@), start as int, *now, depth as nat),
        start < r.1 <= lines.len(),
    decreases depth, 2int,
{
    let ghost ls = lines_view(lines@);
    let ghost whole = field_entries(ls, start as int, *now, depth as nat);
    let mut entries: Vec<char> = Vec::new();
    let mut i: usize = start;
    assert(entries@ + whole.0 =~= whole.0);
    while i < lines.len()
        invariant
            start <= i <= lines.len(),
            ls == lines_view(lines@),
            whole == field_entries(ls, start as int, *now, depth as nat),
            entries@ + field_entries(ls, i as int, *now, depth as nat).0 == whole.0,
            field_entries(ls, i as int, *now, depth as nat).1 == whole.1,
            i == start ==> !blank(ls[i as int]) && field_at(trimmed(ls[i as int])),
        decreases lines.len() - i,
    {
        assert(ls[i as int] == lines@[i as int]@);
        if is_blank(&lines[i]) {
            if is_field_next(lines, i) {
                i += 1;
                continue;
            }
            assert(entries@ + Seq::<char>::empty() =~= entries@);
            return (entries, i);
        }
        let t = trim(&lines[i]);
        let parts = if starts_with(&t, "::") {
            None
        } else {
            colon_parts(&t)
        };
        match parts {
            Some((name, value)) => {
                let (full, end) = collect_field_value(lines, i + 1, value);
                let e = escape(&name);
                let mut piece = concat3("<dt>", &e, "</dt>\n");
                let body = render_field_body(&full, now, depth);
                extend(&mut piece, &body);
                let ghost before = entries@;
                extend(&mut entries, &piece);
                proof {
                    lemma_concat_assoc(
                        before,
                        piece@,
                        field_entries(ls, end as int, *now, depth as nat).0,
                    );
                }
                i = end;
            },
            None => {
                assert(entries@ + Seq::<char>::empty() =~= entries@);
                return (entries, i);
            },
        }
    }
    assert(entries@ + Seq::<char>::empty() =~= entries@);
    (entries, i)
}

fn render_plain_block(
    lines: &Vec<Vec<char>>,
    i: usize,
    state: &ConverterState,
    now: &Moment,
    depth: usize,
) -> (r: (Vec<char>, usize))
    requires
        i < lines.len(),
        !blank(lines_view(lines@)[i as int]),
    ensures
        (r.0@, r.1 as int) == plain_block(lines_view(lines@), i as int, state@, *now, depth as nat),
        i < r.1 <= lines.len(),
    decreases depth, 3int,
{
    let ghost ls = lines_view(lines@);
    assert(ls[i as int] == lines@[i as int]@);
    let t = trim(&lines[i]);
    if let Some(block) = render_early_block(lines, i, &t) {
        return block;
    }
    if starts_with(&t, ".. ") {
        proof {
            reveal_strlit(".. ");
        }
        let rest = skip(&t, 3);
        return render_explicit(lines, i, &rest, state, now, depth);
    }
    if let Some(block) = render_middle_block(lines, i, &t) {
        return block;
    }
    if is_bullet_start(&t) && t.len() > 2 {
        let (items, end) = convert_bullet_list(lines, i, now, depth);
        return (concat3("<ul>\n", &items, "</ul>\n"), end);
    }
    if is_enumerated_item(&t) {
        let (items, end) = convert_enumerated_list(lines, i, now, depth);
        return (concat3("<ol>\n", &items, "</ol>\n"), end);
    }
    if is_field_at(&t) {
        let (entries, end) = convert_field_list(lines, i, now, depth);
        return (concat3("<dl>\n", &entries, "</dl>\n"), end);
    }
    if let Some(block) = render_late_block(lines, i, &t) {
        return block;
    }
    render_paragraph(lines, i, &t)
}

fn render_step(
    lines: &Vec<Vec<char>>,
    i: usize,
    state: &ConverterState,
    now: &Moment,
    depth: usize,
    chars: &mut Vec<char>,
    counters: &mut Vec<usize>,
) -> (r: (Vec<char>, usize))
    requires
        i < lines.len(),
        old(counters).len() == LEVELS,
        forall|k: int| 0 <= k < LEVELS ==> (#[trigger] old(counters)@[k]) <= i,
    ensures
        ({
            let step = block_at(
                lines_view(lines@),
                i as int,
                state@,
                *now,
                depth as nat,
                old(chars)@,
                positions_view(old(counters)@),
            );
            &&& r.0@ == step.html
            &&& r.1 == step.next
            &&& final(chars)@ == step.chars
            &&& positions_view(final(counters)@) == step.counters
        }),
        i < r.1 <= lines.len(),
        final(counters).len() == LEVELS,
        forall|k: int| 0 <= k < LEVELS ==> (#[trigger] final(counters)@[k]) <= r.1,
    decreases depth, 4int,
{
    let ghost ls = lines_view(lines@);
    assert(ls[i as int] == lines@[i as int]@);
    if is_blank(&lines[i]) {
        return (Vec::new(), i + 1);
    }
    if is_underlined(lines, i) {
        let t = trim(&lines[i]);
        if !starts_with(&t, "..") {
            assert(ls[i + 1] == lines@[i + 1]@);
            let under = trim(&lines[i + 1]);
            let html = render_heading(&t, under[0], i + 2, state, chars, counters);
            return (html, i + 2);
        }
    }
    if is_overlined(lines, i) {
        assert(ls[i + 1] == lines@[i + 1]@);
        let over = trim(&lines[i]);
        let title = trim(&lines[i + 1]);
        let html = render_heading(&title, over[0], i + 3, state, chars, counters);
        return (html, i + 3);
    }
    render_plain_block(lines, i, state, now, depth)
}

fn zero_counters() -> (r: Vec<usize>)
    ensures
        r.len() == LEVELS,
        positions_view(r@) == no_counts(),
        forall|k: int| 0 <= k < LEVELS ==> (#[trigger] r@[k]) == 0,
{
    let mut counters: Vec<usize> = Vec::new();
    let mut k: usize = 0;
    while k < LEVELS
        invariant
            k <= LEVELS,
            counters.len() == k,
            forall|j: int| 0 <= j < k ==> (#[trigger] counters@[j]) == 0,
        decreases LEVELS - k,
    {
        counters.push(0);
        k += 1;
    }
    assert(positions_view(counters@) =~= no_counts());
    counters
}

/// Renders the blocks of `lines`, given what is known of the document and
/// the adornments seen so far.
fn render_blocks(
    lines: &Vec<Vec<char>>,
    state: &ConverterState,
    now: &Moment,
    depth: usize,
    chars: Vec<char>,
) -> (r: Vec<char>)
    ensures
        r@ == blocks_from(
            lines_view(lines@),
            0,
            state@,
            *now,
            depth as nat,
            chars@,
            no_counts(),
        ),
    decreases depth, 5int,
{
    let ghost ls = lines_view(lines@);
    let ghost whole = blocks_from(ls, 0, state@, *now, depth as nat, chars@, no_counts());
    let mut seen = chars;
    let mut counters = zero_counters();
    let mut out: Vec<char> = Vec::new();
    let mut i: usize = 0;
    assert(out@ + whole =~= whole);
    while i < lines.len()
        invariant
            i <= lines.len(),
            ls == lines_view(lines@),
            counters.len() == LEVELS,
            forall|k: int| 0 <= k < LEVELS ==> (#[trigger] counters@[k]) <= i,
            out@ + blocks_from(
                ls,
                i as int,
                state@,
                *now,
                depth as nat,
                seen@,
                positions_view(counters@),
            ) == whole,
        decreases lines.len() - i,
    {
        let ghost before = out@;
        let ghost step = block_at(
            ls,
            i as int,
            state@,
            *now,
            depth as nat,
            seen@,
            positions_view(counters@),
        );
        let (html, next) = render_step(lines, i, state, now, depth, &mut seen, &mut counters);
        extend(&mut out, &html);
        proof {
            lemma_concat_assoc(
                before,
                html@,
                blocks_from(ls, next as int, state@, *now, depth as nat, step.chars, step.counters),
            );
        }
        i = next;
    }
    assert(out@ + Seq::<char>::empty() =~= out@);
    out
}

/// Renders content that stands by itself, at the given depth.
fn convert_content(content: &Vec<char>, now: &Moment, depth: usize) -> (r: Vec<char>)
    ensures
        r@ == content_html(content@, *now, depth as nat),
    decreases depth, 6int,
{
    if is_blank(content) {
        return Vec::new();
    }
    let lines = split_lines(content);
    let state = ConverterState::new();
    render_blocks(&lines, &state, now, depth, Vec::new())
}

fn frame(o: &Option<String>, open: &str, close: &str) -> (r: Vec<char>)
    ensures
        r@ == framed(crate::state::string_view(*o), open@, close@),
{
    match o {
        Some(text) => {
            let t = chars_of(text.as_str());
            let h = process_inline_text(&t);
            concat3(open, &h, close)
        },
        None => Vec::new(),
    }
}

/// The second pass: renders the header, the blocks and the footer.
pub fn second_pass(lines: &Vec<Vec<char>>, state: &ConverterState, now: &Moment) -> (r: Vec<char>)
    ensures
        r@ == second_pass_html(lines_view(lines@), state@, *now, MAX_DEPTH as nat),
{
    let mut out = frame(&state.header_content, "<header>", "</header>\n");
    let chars = copy_text(&state.section_chars);
    let blocks = render_blocks(lines, state, now, MAX_DEPTH, chars);
    extend(&mut out, &blocks);
    let footer = frame(&state.footer_content, "<footer>", "</footer>\n");
    extend(&mut out, &footer);
    out
}

/// Converts a document at the moment `now`, which dates are written from.
pub fn convert_at(rst: &str, now: &Moment) -> (r: String)
    ensures
        r@ == document_html(rst@, *now),
{
    let text = chars_of(rst);
    let lines = split_lines(&text);
    let state = first_pass(&lines, ConverterState::new(), now);
    let html = second_pass(&lines, &state, now);
    let done = resolve_substitutions(html, &state);
    string_of(&done)
}

/// Converts a document to HTML. Dates are written from the clock of the
/// machine, which is read only for a document that can ask for a date.
pub fn convert_with_options(rst: &str, options: &ConvertOptions) -> (r: String)
    ensures
        exists|now: Moment| r@ == #[trigger] document_html(rst@, now),
        !mentions_date(rst@) ==> r@ == document_html(rst@, start_of_1970()),
{
    let text = chars_of(rst);
    let now = moment_if(asks_for_date(&text));
    let r = convert_at(rst, &now);
    assert(r@ == document_html(rst@, now));
    r
}

/// Converts a document to HTML with the default options.
pub fn convert(rst: &str) -> (r: String)
    ensures
        exists|now: Moment| r@ == #[trigger] document_html(rst@, now),
        !mentions_date(rst@) ==> r@ == document_html(rst@, start_of_1970()),
{
    convert_with_options(rst, &ConvertOptions::default())
}

/// Converts content that stands by itself at the moment `now`.
pub fn convert_rst_content_at(content: &str, now: &Moment) -> (r: String)
    ensures
        r@ == content_html(content@, *now, MAX_DEPTH as nat),
{
    let text = chars_of(content);
    let html = convert_content(&text, now, MAX_DEPTH);
    string_of(&html)
}

/// Converts content that stands by itself: the content of a directive, of a
/// list item, of a field. Nothing that a document defines is known in
/// it. The clock is read only for content that can ask for a date.
pub fn convert_rst_content(content: &str) -> (r: String)
    ensures
        exists|now: Moment| r@ == #[trigger] content_html(content@, now, MAX_DEPTH as nat),
        !mentions_date(content@) ==> r@ == content_html(
            content@,
            start_of_1970(),
            MAX_DEPTH as nat,
        ),
{
    let text = chars_of(content);
    let now = moment_if(asks_for_date(&text));
    let r = convert_rst_content_at(content, &now);
    assert(r@ == content_html(content@, now, MAX_DEPTH as nat));
    r
}

/// Renders a directive at the moment `now`.
pub fn render_directive_at(info: &DirectiveInfo, state: &ConverterState, now: &Moment) -> (r:
    String)
    ensures
        r@ == directive_block(info@, state@, *now, MAX_DEPTH as nat),
{
    let d = Directive {
        name: chars_of(info.name),
        arguments: chars_of(info.arguments),
        options: info.options.copy(),
        content: chars_of(info.content.as_str()),
    };
    let html = render_directive_block(&d, state, now, MAX_DEPTH);
    string_of(&html)
}

/// Renders a directive to HTML. The state is read, not changed. The clock
/// is read only for a directive whose name or content can ask for a date.
pub fn render_directive(info: &DirectiveInfo, state: &mut ConverterState) -> (r: String)
    ensures
        *final(state) == *old(state),
        exists|now: Moment|
            r@ == #[trigger] directive_block(info@, old(state)@, now, MAX_DEPTH as nat),
        !mentions_date(info.name@) && !mentions_date(info.content@) ==> r@ == directive_block(
            info@,
            old(state)@,
            start_of_1970(),
            MAX_DEPTH as nat,
        ),
{
    let name = chars_of(info.name);
    let content = chars_of(info.content.as_str());
    let now = moment_if(asks_for_date(&name) || asks_for_date(&content));
    let r = render_directive_at(info, state, &now);
    assert(r@ == directive_block(info@, state@, now, MAX_DEPTH as nat));
    r
}

} // verus!
