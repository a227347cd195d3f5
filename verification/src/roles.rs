//! Inline roles: the HTML that stands for `:name:` followed by content in
//! backquotes.

use vstd::prelude::*;
use crate::html_utils::{escape, escaped, slug, slugify_text};
use crate::search::{
    ends_with, ends_with_char, find_char, find_char_in, has_suffix, idx, last_is, rfind_char,
    rfind_char_in,
};
use crate::text::{chars_of, copy_range, extend, is_str, push_str, string_of, trim, trimmed};

verus! {

/// The roles that wrap their escaped content in one element: the name, what
/// is written before the content and what is written after it.
pub open spec fn wrapped_roles() -> Seq<(Seq<char>, Seq<char>, Seq<char>)> {
    seq![
        ("emphasis"@, "<em>"@, "</em>"@),
        ("strong"@, "<strong>"@, "</strong>"@),
        ("literal"@, "<code>"@, "</code>"@),
        ("code"@, "<code>"@, "</code>"@),
        ("subscript"@, "<sub>"@, "</sub>"@),
        ("sub"@, "<sub>"@, "</sub>"@),
        ("superscript"@, "<sup>"@, "</sup>"@),
        ("sup"@, "<sup>"@, "</sup>"@),
        ("title-reference"@, "<cite>"@, "</cite>"@),
        ("title"@, "<cite>"@, "</cite>"@),
        ("t"@, "<cite>"@, "</cite>"@),
        ("kbd"@, "<kbd>"@, "</kbd>"@),
        ("dfn"@, "<dfn>"@, "</dfn>"@),
        ("samp"@, "<samp>"@, "</samp>"@),
        ("guilabel"@, "<span class=\"guilabel\">"@, "</span>"@),
        ("menuselection"@, "<span class=\"menuselection\">"@, "</span>"@),
        ("file"@, "<code class=\"file\">"@, "</code>"@),
        ("command"@, "<strong class=\"command\">"@, "</strong>"@),
        ("program"@, "<strong class=\"program\">"@, "</strong>"@),
        ("option"@, "<code class=\"option\">"@, "</code>"@),
        ("envvar"@, "<code class=\"envvar\">"@, "</code>"@),
        ("makevar"@, "<code class=\"makevar\">"@, "</code>"@),
        ("math"@, "<span class=\"math-inline\">"@, "</span>"@),
        ("class"@, "<code class=\"xref\">"@, "</code>"@),
        ("func"@, "<code class=\"xref\">"@, "</code>"@),
        ("meth"@, "<code class=\"xref\">"@, "</code>"@),
        ("mod"@, "<code class=\"xref\">"@, "</code>"@),
        ("attr"@, "<code class=\"xref\">"@, "</code>"@),
        ("exc"@, "<code class=\"xref\">"@, "</code>"@),
        ("obj"@, "<code class=\"xref\">"@, "</code>"@),
        ("data"@, "<code class=\"xref\">"@, "</code>"@),
        ("const"@, "<code class=\"xref\">"@, "</code>"@),
        ("type"@, "<code class=\"xref\">"@, "</code>"@),
    ]
}

/// The first row at or after `i` whose name is `name`.
pub open spec fn row_from(
    table: Seq<(Seq<char>, Seq<char>, Seq<char>)>,
    name: Seq<char>,
    i: int,
) -> Option<int>
    decreases table.len() - i,
{
    if i < 0 || i >= table.len() {
        None
    } else if table[i].0 == name {
        Some(i)
    } else {
        row_from(table, name, i + 1)
    }
}

/// A table of names and tags over mathematical texts.
pub open spec fn table_view(t: Seq<(&'static str, &'static str, &'static str)>) -> Seq<
    (Seq<char>, Seq<char>, Seq<char>),
> {
    Seq::new(t.len(), |i: int| (t[i].0@, t[i].1@, t[i].2@))
}

fn wrapped_role_table() -> (t: Vec<(&'static str, &'static str, &'static str)>)
    ensures
        table_view(t@) == wrapped_roles(),
{
    let t = vec![
        ("emphasis", "<em>", "</em>"),
        ("strong", "<strong>", "</strong>"),
        ("literal", "<code>", "</code>"),
        ("code", "<code>", "</code>"),
        ("subscript", "<sub>", "</sub>"),
        ("sub", "<sub>", "</sub>"),
        ("superscript", "<sup>", "</sup>"),
        ("sup", "<sup>", "</sup>"),
        ("title-reference", "<cite>", "</cite>"),
        ("title", "<cite>", "</cite>"),
        ("t", "<cite>", "</cite>"),
        ("kbd", "<kbd>", "</kbd>"),
        ("dfn", "<dfn>", "</dfn>"),
        ("samp", "<samp>", "</samp>"),
        ("guilabel", "<span class=\"guilabel\">", "</span>"),
        ("menuselection", "<span class=\"menuselection\">", "</span>"),
        ("file", "<code class=\"file\">", "</code>"),
        ("command", "<strong class=\"command\">", "</strong>"),
        ("program", "<strong class=\"program\">", "</strong>"),
        ("option", "<code class=\"option\">", "</code>"),
        ("envvar", "<code class=\"envvar\">", "</code>"),
        ("makevar", "<code class=\"makevar\">", "</code>"),
        ("math", "<span class=\"math-inline\">", "</span>"),
        ("class", "<code class=\"xref\">", "</code>"),
        ("func", "<code class=\"xref\">", "</code>"),
        ("meth", "<code class=\"xref\">", "</code>"),
        ("mod", "<code class=\"xref\">", "</code>"),
        ("attr", "<code class=\"xref\">", "</code>"),
        ("exc", "<code class=\"xref\">", "</code>"),
        ("obj", "<code class=\"xref\">", "</code>"),
        ("data", "<code class=\"xref\">", "</code>"),
        ("const", "<code class=\"xref\">", "</code>"),
        ("type", "<code class=\"xref\">", "</code>"),
    ];
    assert(table_view(t@) =~= wrapped_roles());
    t
}

/// The shown text and the target of content written as `text <target>`.
pub open spec fn display_and_target(c: Seq<char>) -> Option<(Seq<char>, Seq<char>)> {
    match rfind_char(c, '<') {
        Some(a) => if last_is(c, '>') && trimmed(c.subrange(0, a)).len() > 0 {
            Some((trimmed(c.subrange(0, a)), c.subrange(a + 1, c.len() - 1)))
        } else {
            None
        },
        None => None,
    }
}

/// Two parsed texts over mathematical texts.
pub open spec fn pair_view(r: Option<(Vec<char>, Vec<char>)>) -> Option<(Seq<char>, Seq<char>)> {
    match r {
        Some((a, b)) => Some((a@, b@)),
        None => None,
    }
}

fn parse_display_and_target(content: &Vec<char>) -> (r: Option<(Vec<char>, Vec<char>)>)
    ensures
        pair_view(r) == display_and_target(content@),
{
    match rfind_char_in(content, '<') {
        Some(a) => {
            if ends_with_char(content, '>') {
                let front = copy_range(content, 0, a);
                let display = trim(&front);
                if display.len() > 0 {
                    let target = copy_range(content, a + 1, content.len() - 1);
                    return Some((display, target));
                }
            }
            None
        },
        None => None,
    }
}

/// A reference to a label of the same document.
pub open spec fn ref_role_html(content: Seq<char>) -> Seq<char> {
    match display_and_target(content) {
        Some((display, target)) => "<a href=\"#"@ + escaped(target)
            + "\" class=\"reference internal\">"@ + escaped(display) + "</a>"@,
        None => "<a href=\"#"@ + escaped(content) + "\" class=\"reference internal\">"@ + escaped(
            content,
        ) + "</a>"@,
    }
}

/// The page that a document name refers to.
pub open spec fn doc_href(target: Seq<char>) -> Seq<char> {
    if has_suffix(target, ".html"@) {
        target
    } else {
        target + ".html"@
    }
}

/// A reference to another document.
pub open spec fn doc_role_html(content: Seq<char>) -> Seq<char> {
    match display_and_target(content) {
        Some((display, target)) => "<a href=\""@ + escaped(doc_href(target))
            + "\" class=\"reference internal\">"@ + escaped(display) + "</a>"@,
        None => "<a href=\""@ + escaped(content + ".html"@) + "\" class=\"reference internal\">"@
            + escaped(content) + "</a>"@,
    }
}

/// A reference to a term of a glossary.
pub open spec fn term_role_html(content: Seq<char>) -> Seq<char> {
    match display_and_target(content) {
        Some((display, target)) => "<a href=\"#term-"@ + slug(target)
            + "\" class=\"reference internal\">"@ + escaped(display) + "</a>"@,
        None => "<a href=\"#term-"@ + slug(content) + "\" class=\"reference internal\">"@
            + escaped(content) + "</a>"@,
    }
}

/// An abbreviation, with its expansion as the title where one is given in
/// brackets.
pub open spec fn abbr_role_html(content: Seq<char>) -> Seq<char> {
    match find_char(content, '(') {
        Some(p) => if last_is(content, ')') {
            "<abbr title=\""@ + escaped(content.subrange(p + 1, content.len() - 1)) + "\">"@
                + escaped(trimmed(content.subrange(0, p))) + "</abbr>"@
        } else {
            "<abbr>"@ + escaped(content) + "</abbr>"@
        },
        None => "<abbr>"@ + escaped(content) + "</abbr>"@,
    }
}

/// The HTML of the role `role` applied to `content`.
pub open spec fn role_html(role: Seq<char>, content: Seq<char>) -> Seq<char> {
    match row_from(wrapped_roles(), role, 0) {
        Some(k) => wrapped_roles()[k].1 + escaped(content) + wrapped_roles()[k].2,
        None => if role == "ref"@ {
            ref_role_html(content)
        } else if role == "doc"@ {
            doc_role_html(content)
        } else if role == "term"@ {
            term_role_html(content)
        } else if role == "abbr"@ || role == "abbreviation"@ {
            abbr_role_html(content)
        } else if role == "pep"@ {
            "<a href=\"https://peps.python.org/pep-"@ + content + "/\">PEP "@ + content + "</a>"@
        } else if role == "rfc"@ {
            "<a href=\"https://datatracker.ietf.org/doc/html/rfc"@ + content + "\">RFC "@
                + content + "</a>"@
        } else {
            "<span class=\"role-"@ + escaped(role) + "\">"@ + escaped(content) + "</span>"@
        },
    }
}

/// `open`, then the escaped `first`, then `mid`, then the escaped `second`,
/// then `close`.
fn link_html(open: &str, first: &Vec<char>, mid: &str, second: &Vec<char>, close: &str) -> (r:
    Vec<char>)
    ensures
        r@ == open@ + escaped(first@) + mid@ + escaped(second@) + close@,
{
    let mut out = chars_of(open);
    let a = escape(first);
    extend(&mut out, &a);
    push_str(&mut out, mid);
    let b = escape(second);
    extend(&mut out, &b);
    push_str(&mut out, close);
    out
}

fn render_ref_role(content: &Vec<char>) -> (r: Vec<char>)
    ensures
        r@ == ref_role_html(content@),
{
    match parse_display_and_target(content) {
        Some((display, target)) => link_html(
            "<a href=\"#",
            &target,
            "\" class=\"reference internal\">",
            &display,
            "</a>",
        ),
        None => link_html(
            "<a href=\"#",
            content,
            "\" class=\"reference internal\">",
            content,
            "</a>",
        ),
    }
}

fn render_doc_role(content: &Vec<char>) -> (r: Vec<char>)
    ensures
        r@ == doc_role_html(content@),
{
    match parse_display_and_target(content) {
        Some((display, target)) => {
            let mut href = target;
            if !ends_with(&href, ".html") {
                push_str(&mut href, ".html");
            }
            link_html("<a href=\"", &href, "\" class=\"reference internal\">", &display, "</a>")
        },
        None => {
            let mut href = copy_range(content, 0, content.len());
            assert(href@ == content@) by {
                assert(content@.subrange(0, content.len() as int) =~= content@);
            }
            push_str(&mut href, ".html");
            link_html("<a href=\"", &href, "\" class=\"reference internal\">", content, "</a>")
        },
    }
}

fn render_term_role(content: &Vec<char>) -> (r: Vec<char>)
    ensures
        r@ == term_role_html(content@),
{
    let mut out = chars_of("<a href=\"#term-");
    match parse_display_and_target(content) {
        Some((display, target)) => {
            let s = slugify_text(&target);
            extend(&mut out, &s);
            push_str(&mut out, "\" class=\"reference internal\">");
            let e = escape(&display);
            extend(&mut out, &e);
        },
        None => {
            let s = slugify_text(content);
            extend(&mut out, &s);
            push_str(&mut out, "\" class=\"reference internal\">");
            let e = escape(content);
            extend(&mut out, &e);
        },
    }
    push_str(&mut out, "</a>");
    out
}

fn render_abbr_role(content: &Vec<char>) -> (r: Vec<char>)
    ensures
        r@ == abbr_role_html(content@),
{
    match find_char_in(content, '(', 0) {
        Some(p) => {
            if ends_with_char(content, ')') {
                let expansion = copy_range(content, p + 1, content.len() - 1);
                let front = copy_range(content, 0, p);
                let abbr = trim(&front);
                return link_html("<abbr title=\"", &expansion, "\">", &abbr, "</abbr>");
            }
        },
        None => {},
    }
    let mut out = chars_of("<abbr>");
    let e = escape(content);
    extend(&mut out, &e);
    push_str(&mut out, "</abbr>");
    out
}

fn find_row(t: &Vec<(&'static str, &'static str, &'static str)>, name: &Vec<char>) -> (r: Option<
    usize,
>)
    ensures
        idx(r) == row_from(table_view(t@), name@, 0),
        r matches Some(k) ==> k < t.len(),
{
    let mut i: usize = 0;
    while i < t.len()
        invariant
            i <= t.len(),
            row_from(table_view(t@), name@, i as int) == row_from(table_view(t@), name@, 0),
        decreases t.len() - i,
    {
        if is_str(name, t[i].0) {
            return Some(i);
        }
        i += 1;
    }
    None
}

/// Renders the role `role` applied to `content`.
pub fn render_role_text(role: &Vec<char>, content: &Vec<char>) -> (r: Vec<char>)
    ensures
        r@ == role_html(role@, content@),
{
    let table = wrapped_role_table();
    match find_row(&table, role) {
        Some(k) => {
            let mut out = chars_of(table[k].1);
            let e = escape(content);
            extend(&mut out, &e);
            push_str(&mut out, table[k].2);
            out
        },
        None => {
            if is_str(role, "ref") {
                render_ref_role(content)
            } else if is_str(role, "doc") {
                render_doc_role(content)
            } else if is_str(role, "term") {
                render_term_role(content)
            } else if is_str(role, "abbr") || is_str(role, "abbreviation") {
                render_abbr_role(content)
            } else if is_str(role, "pep") {
                let mut out = chars_of("<a href=\"https://peps.python.org/pep-");
                extend(&mut out, content);
                push_str(&mut out, "/\">PEP ");
                extend(&mut out, content);
                push_str(&mut out, "</a>");
                out
            } else if is_str(role, "rfc") {
                let mut out = chars_of("<a href=\"https://datatracker.ietf.org/doc/html/rfc");
                extend(&mut out, content);
                push_str(&mut out, "\">RFC ");
                extend(&mut out, content);
                push_str(&mut out, "</a>");
                out
            } else {
                link_html("<span class=\"role-", role, "\">", content, "</span>")
            }
        },
    }
}

/// Renders the role `role` applied to `content`.
pub fn render_role(role: &str, content: &str) -> (r: String)
    ensures
        r@ == role_html(role@, content@),
{
    let name = chars_of(role);
    let body = chars_of(content);
    let html = render_role_text(&name, &body);
    string_of(&html)
}

} // verus!
