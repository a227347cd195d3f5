//! The first pass: what a document says of itself before it is rendered.

use vstd::prelude::*;
use crate::blocks::{collect_directive, directive_content};
use crate::clock::{date_text, Moment, render_date};
use crate::glossary::{render_unicode, unicode_text};
use crate::html_utils::{escape, escaped};
use crate::inline::{inline_html, process_inline_text};
use crate::lines::lines_view;
use crate::number::{parse_number, parsed};
use crate::parser::{
    adornment_run, colon_name, colon_parts, colon_value, is_section_adornment, parse_substitution,
    second_colon, substitution_parts,
};
use crate::search::{begins_with_char, find, find_str, first_is, has_prefix, starts_with};
use crate::state::{
    assigned, ConverterState, get_or_assign_level, level_of, Meta, pairs_view, set_substitution,
    titles_view, with_substitution,
};
use crate::text::{
    blank, concat3, copy_text, is_blank, is_str, skip, string_of, take, trim, trimmed,
};

verus! {

/// The HTML that stands for a substitution of the given type: an image, a
/// replacement text with inline markup, a date, a list of code points; for
/// any other type the arguments themselves.
pub open spec fn substitution_html(kind: Seq<char>, args: Seq<char>, now: Moment) -> Seq<char> {
    if kind == "image"@ {
        "<img src=\""@ + escaped(args) + "\" alt=\"\">"@
    } else if kind == "replace"@ {
        inline_html(args)
    } else if kind == "date"@ {
        date_text(args, now)
    } else if kind == "unicode"@ {
        unicode_text(args, false)
    } else {
        args
    }
}

/// Renders the HTML that stands for a substitution of the given type.
pub fn process_substitution(kind: &Vec<char>, args: &Vec<char>, now: &Moment) -> (r: Vec<char>)
    ensures
        r@ == substitution_html(kind@, args@, *now),
{
    if is_str(kind, "image") {
        let e = escape(args);
        concat3("<img src=\"", &e, "\" alt=\"\">")
    } else if is_str(kind, "replace") {
        process_inline_text(args)
    } else if is_str(kind, "date") {
        render_date(args, now)
    } else if is_str(kind, "unicode") {
        render_unicode(args, false)
    } else {
        copy_text(args)
    }
}

/// Whether the line at `i` is a title that the next line underlines: the
/// next line is a run of adornment at least as long as the title.
pub open spec fn underlined_at(ls: Seq<Seq<char>>, i: int) -> bool {
    i + 1 < ls.len() && !blank(ls[i]) && adornment_run(trimmed(ls[i + 1])) && trimmed(
        ls[i + 1],
    ).len() >= trimmed(ls[i]).len()
}

/// Whether the line at `i` is the overline of a title: a run of
/// adornment, then a line of text, then a run of the same adornment, both
/// runs at least as long as the title.
pub open spec fn overlined_at(ls: Seq<Seq<char>>, i: int) -> bool {
    i + 2 < ls.len() && adornment_run(trimmed(ls[i])) && trimmed(ls[i + 1]).len() > 0
        && adornment_run(trimmed(ls[i + 2])) && trimmed(ls[i])[0] == trimmed(ls[i + 2])[0]
        && trimmed(ls[i]).len() >= trimmed(ls[i + 1]).len() && trimmed(ls[i + 2]).len()
        >= trimmed(ls[i + 1]).len()
}

pub(crate) fn is_underlined(lines: &Vec<Vec<char>>, i: usize) -> (b: bool)
    requires
        i < lines.len(),
    ensures
        b == underlined_at(lines_view(lines@), i as int),
{
    let ghost ls = lines_view(lines@);
    assert(ls[i as int] == lines@[i as int]@);
    if lines.len() - i > 1 && !is_blank(&lines[i]) {
        assert(ls[i + 1] == lines@[i + 1]@);
        let t = trim(&lines[i]);
        let next = trim(&lines[i + 1]);
        is_section_adornment(&next) && next.len() >= t.len()
    } else {
        false
    }
}

pub(crate) fn is_overlined(lines: &Vec<Vec<char>>, i: usize) -> (b: bool)
    requires
        i < lines.len(),
    ensures
        b == overlined_at(lines_view(lines@), i as int),
{
    let ghost ls = lines_view(lines@);
    assert(ls[i as int] == lines@[i as int]@);
    if lines.len() - i > 2 {
        assert(ls[i + 1] == lines@[i + 1]@);
        assert(ls[i + 2] == lines@[i + 2]@);
        let t = trim(&lines[i]);
        if !is_section_adornment(&t) {
            return false;
        }
        let text = trim(&lines[i + 1]);
        let under = trim(&lines[i + 2]);
        text.len() > 0 && is_section_adornment(&under) && t[0] == under[0] && t.len() >= text.len()
            && under.len() >= text.len()
    } else {
        false
    }
}

/// The state with one more title, adorned by `c`.
pub open spec fn with_title(meta: Meta, c: char, title: Seq<char>) -> Meta {
    Meta {
        section_titles: meta.section_titles.push((level_of(meta.section_chars, c), title)),
        section_chars: assigned(meta.section_chars, c),
        ..meta
    }
}

/// The state once the option `name` of section numbering has the value
/// `value`. A depth that is no number is six.
pub open spec fn with_sectnum_option(meta: Meta, name: Seq<char>, value: Seq<char>) -> Meta {
    if name == "depth"@ {
        Meta {
            sectnum_depth: match parsed(value, 10, usize::MAX as int) {
                Some(n) => n,
                None => 6,
            },
            ..meta
        }
    } else if name == "prefix"@ {
        Meta { sectnum_prefix: value, ..meta }
    } else if name == "suffix"@ {
        Meta { sectnum_suffix: value, ..meta }
    } else {
        meta
    }
}

/// The state once the options of section numbering from line `j` on are
/// read: the lines that, once trimmed, begin with a colon.
pub open spec fn sectnum_scan(ls: Seq<Seq<char>>, j: int, meta: Meta) -> Meta
    decreases ls.len() - j,
{
    if 0 <= j < ls.len() && first_is(trimmed(ls[j]), ':') {
        sectnum_scan(
            ls,
            j + 1,
            if second_colon(trimmed(ls[j])) is Some {
                with_sectnum_option(meta, colon_name(trimmed(ls[j])), colon_value(trimmed(ls[j])))
            } else {
                meta
            },
        )
    } else {
        meta
    }
}

/// The address that a target line records: `_name: address`.
pub open spec fn recorded_target(rest: Seq<char>) -> Option<(Seq<char>, Seq<char>)> {
    let tr = rest.subrange(1, rest.len() as int);
    if first_is(rest, '_') && find(tr, ": "@) is Some {
        Some(
            (
                trimmed(tr.subrange(0, find(tr, ": "@).unwrap())),
                trimmed(tr.subrange(find(tr, ": "@).unwrap() + 2, tr.len() as int)),
            ),
        )
    } else {
        None
    }
}

/// The state once the explicit markup at line `i` is read, where `rest`
/// is what follows `.. ` on that line: a substitution definition, a target,
/// section numbering, or a header or a footer, of which the first one
/// counts.
pub open spec fn with_explicit(ls: Seq<Seq<char>>, i: int, rest: Seq<char>, meta: Meta, now: Moment)
    -> Meta {
    if substitution_parts(rest) is Some {
        let (name, kind, args) = substitution_parts(rest).unwrap();
        Meta {
            substitutions: with_substitution(
                meta.substitutions,
                name,
                substitution_html(kind, args, now),
            ),
            ..meta
        }
    } else if recorded_target(rest) is Some {
        Meta {
            target_references: meta.target_references.push(recorded_target(rest).unwrap()),
            ..meta
        }
    } else if has_prefix(rest, "sectnum::"@) {
        sectnum_scan(ls, i + 1, Meta { sectnum: true, ..meta })
    } else if has_prefix(rest, "header::"@) && meta.header_content is None {
        Meta { header_content: Some(directive_content(ls, i + 1)), ..meta }
    } else if has_prefix(rest, "footer::"@) && meta.footer_content is None {
        Meta { footer_content: Some(directive_content(ls, i + 1)), ..meta }
    } else {
        meta
    }
}

/// The state once the lines from `i` on are read.
pub open spec fn meta_from(ls: Seq<Seq<char>>, i: int, meta: Meta, now: Moment) -> Meta
    decreases ls.len() - i,
{
    if i < 0 || i >= ls.len() {
        meta
    } else if underlined_at(ls, i) {
        meta_from(ls, i + 2, with_title(meta, trimmed(ls[i + 1])[0], trimmed(ls[i])), now)
    } else if overlined_at(ls, i) {
        meta_from(ls, i + 3, with_title(meta, trimmed(ls[i])[0], trimmed(ls[i + 1])), now)
    } else if has_prefix(trimmed(ls[i]), ".. "@) {
        meta_from(
            ls,
            i + 1,
            with_explicit(
                ls,
                i,
                trimmed(ls[i]).subrange(3, trimmed(ls[i]).len() as int),
                meta,
                now,
            ),
            now,
        )
    } else {
        meta_from(ls, i + 1, meta, now)
    }
}

/// What the first pass learns of a document.
pub open spec fn analyzed(ls: Seq<Seq<char>>, now: Moment) -> Meta {
    meta_from(ls, 0, crate::state::empty_meta(), now)
}

fn push_title(titles: &mut Vec<(u8, String)>, level: u8, title: &Vec<char>)
    ensures
        titles_view(final(titles)@) == titles_view(old(titles)@).push((level as int, title@)),
{
    titles.push((level, string_of(title)));
    assert(titles_view(titles@) =~= titles_view(old(titles)@).push((level as int, title@)));
}

fn push_target(targets: &mut Vec<(String, String)>, name: &Vec<char>, url: &Vec<char>)
    ensures
        pairs_view(final(targets)@) == pairs_view(old(targets)@).push((name@, url@)),
{
    targets.push((string_of(name), string_of(url)));
    assert(pairs_view(targets@) =~= pairs_view(old(targets)@).push((name@, url@)));
}

fn parse_recorded_target(rest: &Vec<char>) -> (r: Option<(Vec<char>, Vec<char>)>)
    ensures
        crate::parser::name_value_view(r) == recorded_target(rest@),
{
    if !begins_with_char(rest, '_') {
        return None;
    }
    let tr = skip(rest, 1);
    proof {
        reveal_strlit(": ");
    }
    match find_str(&tr, ": ") {
        Some(c) => {
            let name = take(&tr, c);
            let url = skip(&tr, c + 2);
            Some((trim(&name), trim(&url)))
        },
        None => None,
    }
}

/// Reads the options of section numbering from line `from` on.
fn read_sectnum(lines: &Vec<Vec<char>>, from: usize, state: ConverterState) -> (r: ConverterState)
    requires
        from <= lines.len(),
    ensures
        r@ == sectnum_scan(lines_view(lines@), from as int, state@),
{
    let ghost ls = lines_view(lines@);
    let ghost start = state@;
    let mut st = state;
    let mut j: usize = from;
    while j < lines.len()
        invariant
            from <= j <= lines.len(),
            ls == lines_view(lines@),
            start == state@,
            sectnum_scan(ls, j as int, st@) == sectnum_scan(ls, from as int, start),
        decreases lines.len() - j,
    {
        assert(ls[j as int] == lines@[j as int]@);
        let t = trim(&lines[j]);
        if !begins_with_char(&t, ':') {
            return st;
        }
        if let Some((name, value)) = colon_parts(&t) {
            if is_str(&name, "depth") {
                let depth = match parse_number(&value, 10, usize::MAX as u64) {
                    Some(n) => n as usize,
                    None => 6,
                };
                st = ConverterState { sectnum_depth: depth, ..st };
            } else if is_str(&name, "prefix") {
                st = ConverterState { sectnum_prefix: string_of(&value), ..st };
            } else if is_str(&name, "suffix") {
                st = ConverterState { sectnum_suffix: string_of(&value), ..st };
            }
        }
        j += 1;
    }
    st
}

fn read_explicit(
    lines: &Vec<Vec<char>>,
    i: usize,
    rest: &Vec<char>,
    state: ConverterState,
    now: &Moment,
) -> (r: ConverterState)
    requires
        i < lines.len(),
    ensures
        r@ == with_explicit(lines_view(lines@), i as int, rest@, state@, *now),
{
    let mut st = state;
    if let Some((name, kind, args)) = parse_substitution(rest) {
        let html = process_substitution(&kind, &args, now);
        let mut subs = st.substitutions;
        set_substitution(&mut subs, &name, &html);
        return ConverterState { substitutions: subs, ..st };
    }
    if let Some((name, url)) = parse_recorded_target(rest) {
        let mut targets = st.target_references;
        push_target(&mut targets, &name, &url);
        return ConverterState { target_references: targets, ..st };
    }
    if starts_with(rest, "sectnum::") {
        st = ConverterState { sectnum: true, ..st };
        return read_sectnum(lines, i + 1, st);
    }
    if starts_with(rest, "header::") && st.header_content.is_none() {
        let (_options, content, _end) = collect_directive(lines, i + 1);
        return ConverterState { header_content: Some(string_of(&content)), ..st };
    }
    if starts_with(rest, "footer::") && st.footer_content.is_none() {
        let (_options, content, _end) = collect_directive(lines, i + 1);
        return ConverterState { footer_content: Some(string_of(&content)), ..st };
    }
    st
}

fn add_title(state: ConverterState, c: char, title: &Vec<char>) -> (r: ConverterState)
    ensures
        r@ == with_title(state@, c, title@),
{
    let mut chars = state.section_chars;
    let mut titles = state.section_titles;
    let level = get_or_assign_level(c, &mut chars);
    push_title(&mut titles, level, title);
    ConverterState { section_titles: titles, section_chars: chars, ..state }
}

/// The first pass: reads the titles, the substitution definitions, the
/// targets, the header and the footer, and the numbering of sections.
pub fn first_pass(lines: &Vec<Vec<char>>, state: ConverterState, now: &Moment) -> (r:
    ConverterState)
    ensures
        r@ == meta_from(lines_view(lines@), 0, state@, *now),
{
    let ghost ls = lines_view(lines@);
    let ghost start = state@;
    let mut st = state;
    let mut i: usize = 0;
    while i < lines.len()
        invariant
            i <= lines.len(),
            ls == lines_view(lines@),
            meta_from(ls, i as int, st@, *now) == meta_from(ls, 0, start, *now),
        decreases lines.len() - i,
    {
        assert(ls[i as int] == lines@[i as int]@);
        if is_underlined(lines, i) {
            assert(ls[i + 1] == lines@[i + 1]@);
            let t = trim(&lines[i]);
            let next = trim(&lines[i + 1]);
            st = add_title(st, next[0], &t);
            i += 2;
        } else if is_overlined(lines, i) {
            assert(ls[i + 1] == lines@[i + 1]@);
            let t = trim(&lines[i]);
            let text = trim(&lines[i + 1]);
            st = add_title(st, t[0], &text);
            i += 3;
        } else {
            let t = trim(&lines[i]);
            if starts_with(&t, ".. ") {
                proof {
                    reveal_strlit(".. ");
                }
                let rest = skip(&t, 3);
                st = read_explicit(lines, i, &rest, st, now);
            }
            i += 1;
        }
    }
    st
}

} // verus!
