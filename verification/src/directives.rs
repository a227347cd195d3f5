//! The directive dispatcher: each directive name has a kind, and each kind
//! a renderer. The content of a directive that holds blocks is rendered by
//! the converter and handed to the renderer.

use vstd::prelude::*;
use crate::chars::{to_uppercase, uppercase};
use crate::clock::{date_text, Moment, render_date};
use crate::glossary::{
    glossary_html, productionlist_html, render_glossary, render_productionlist,
    render_toctree_entries, render_unicode, toctree_upto, unicode_text,
};
use crate::html_utils::{dedent_text, dedented, escape, escaped, slug, slugify_text};
use crate::inline::{inline_html, process_inline_text};
use crate::lines::lines_of;
use crate::number::{parse_number, parsed};
use crate::options::{found_view, Options, value_of};
use crate::search::{find, find_str};
use crate::state::{ConverterState, Meta, pairs_view, titles_view};
use crate::tables::data::{caption, convert_csv_table_text, csv_table_html, push_caption};
use crate::tables::grid::language_class;
use crate::tables::list::{convert_list_table_text, list_table_html};
use crate::tables::simple::{is_simple_table_text, simple_table};
use crate::text::{
    chars_of, concat3, concat5, copy_text, extend, extend_if, is_str, push_if, push_str, skip, take,
    trim, trim_end, trimmed, trimmed_end,
};

pub use crate::converter::render_directive;

verus! {

/// A directive as it is read from a document.
pub struct DirectiveInfo<'a> {
    pub name: &'a str,
    pub arguments: &'a str,
    pub options: Options,
    pub content: String,
}

/// A directive over texts.
pub struct Directive {
    pub name: Vec<char>,
    pub arguments: Vec<char>,
    pub options: Options,
    pub content: Vec<char>,
}

/// A directive over mathematical texts.
pub struct DirectiveView {
    pub name: Seq<char>,
    pub arguments: Seq<char>,
    pub options: Map<Seq<char>, Seq<char>>,
    pub content: Seq<char>,
}

impl<'a> View for DirectiveInfo<'a> {
    type V = DirectiveView;

    open spec fn view(&self) -> DirectiveView {
        DirectiveView {
            name: self.name@,
            arguments: self.arguments@,
            options: self.options@,
            content: self.content@,
        }
    }
}

impl View for Directive {
    type V = DirectiveView;

    open spec fn view(&self) -> DirectiveView {
        DirectiveView {
            name: self.name@,
            arguments: self.arguments@,
            options: self.options@,
            content: self.content@,
        }
    }
}

/// The kinds of directive.
#[derive(Clone, Copy, Debug)]
pub enum DirectiveKind {
    CodeBlock,
    ParsedLiteral,
    Admonition,
    GenericAdmonition,
    SeeAlso,
    Image,
    Figure,
    Topic,
    Sidebar,
    Rubric,
    Centered,
    Blockquote,
    Compound,
    Container,
    Contents,
    Table,
    CsvTable,
    ListTable,
    Raw,
    Include,
    Meta,
    Math,
    Toctree,
    VersionAdded,
    VersionChanged,
    Deprecated,
    Glossary,
    ProductionList,
    Doctest,
    Testcode,
    Testoutput,
    Unicode,
    Date,
    Replace,
    /// A directive that the first pass has read, or that leaves no trace.
    Silent,
    TargetNotes,
    Unknown,
}

/// The names of the directives, each with its kind.
pub open spec fn directive_names() -> Seq<(Seq<char>, DirectiveKind)> {
    seq![
        ("code-block"@, DirectiveKind::CodeBlock),
        ("code"@, DirectiveKind::CodeBlock),
        ("sourcecode"@, DirectiveKind::CodeBlock),
        ("highlight"@, DirectiveKind::CodeBlock),
        ("parsed-literal"@, DirectiveKind::ParsedLiteral),
        ("note"@, DirectiveKind::Admonition),
        ("warning"@, DirectiveKind::Admonition),
        ("tip"@, DirectiveKind::Admonition),
        ("caution"@, DirectiveKind::Admonition),
        ("danger"@, DirectiveKind::Admonition),
        ("attention"@, DirectiveKind::Admonition),
        ("error"@, DirectiveKind::Admonition),
        ("hint"@, DirectiveKind::Admonition),
        ("important"@, DirectiveKind::Admonition),
        ("admonition"@, DirectiveKind::GenericAdmonition),
        ("seealso"@, DirectiveKind::SeeAlso),
        ("image"@, DirectiveKind::Image),
        ("figure"@, DirectiveKind::Figure),
        ("topic"@, DirectiveKind::Topic),
        ("sidebar"@, DirectiveKind::Sidebar),
        ("rubric"@, DirectiveKind::Rubric),
        ("centered"@, DirectiveKind::Centered),
        ("epigraph"@, DirectiveKind::Blockquote),
        ("highlights"@, DirectiveKind::Blockquote),
        ("pull-quote"@, DirectiveKind::Blockquote),
        ("compound"@, DirectiveKind::Compound),
        ("container"@, DirectiveKind::Container),
        ("contents"@, DirectiveKind::Contents),
        ("table"@, DirectiveKind::Table),
        ("csv-table"@, DirectiveKind::CsvTable),
        ("list-table"@, DirectiveKind::ListTable),
        ("raw"@, DirectiveKind::Raw),
        ("include"@, DirectiveKind::Include),
        ("class"@, DirectiveKind::Container),
        ("meta"@, DirectiveKind::Meta),
        ("math"@, DirectiveKind::Math),
        ("toctree"@, DirectiveKind::Toctree),
        ("versionadded"@, DirectiveKind::VersionAdded),
        ("versionchanged"@, DirectiveKind::VersionChanged),
        ("deprecated"@, DirectiveKind::Deprecated),
        ("glossary"@, DirectiveKind::Glossary),
        ("productionlist"@, DirectiveKind::ProductionList),
        ("doctest"@, DirectiveKind::Doctest),
        ("testcode"@, DirectiveKind::Testcode),
        ("testoutput"@, DirectiveKind::Testoutput),
        ("unicode"@, DirectiveKind::Unicode),
        ("date"@, DirectiveKind::Date),
        ("replace"@, DirectiveKind::Replace),
        ("role"@, DirectiveKind::Silent),
        ("sectnum"@, DirectiveKind::Silent),
        ("header"@, DirectiveKind::Silent),
        ("footer"@, DirectiveKind::Silent),
        ("target-notes"@, DirectiveKind::TargetNotes),
    ]
}

/// The kind of the first name at or after `i` that is `name`.
pub open spec fn kind_from(table: Seq<(Seq<char>, DirectiveKind)>, name: Seq<char>, i: int)
    -> DirectiveKind
    decreases table.len() - i,
{
    if i < 0 || i >= table.len() {
        DirectiveKind::Unknown
    } else if table[i].0 == name {
        table[i].1
    } else {
        kind_from(table, name, i + 1)
    }
}

/// The kind of the directive `name`; a name that is not known has the kind
/// `Unknown`.
pub open spec fn directive_kind(name: Seq<char>) -> DirectiveKind {
    kind_from(directive_names(), name, 0)
}

/// The table of directive names over mathematical texts.
pub open spec fn names_view(t: Seq<(&'static str, DirectiveKind)>) -> Seq<
    (Seq<char>, DirectiveKind),
> {
    Seq::new(t.len(), |i: int| (t[i].0@, t[i].1))
}

fn directive_table() -> (t: Vec<(&'static str, DirectiveKind)>)
    ensures
        names_view(t@) == directive_names(),
{
    let t = vec![
        ("code-block", DirectiveKind::CodeBlock),
        ("code", DirectiveKind::CodeBlock),
        ("sourcecode", DirectiveKind::CodeBlock),
        ("highlight", DirectiveKind::CodeBlock),
        ("parsed-literal", DirectiveKind::ParsedLiteral),
        ("note", DirectiveKind::Admonition),
        ("warning", DirectiveKind::Admonition),
        ("tip", DirectiveKind::Admonition),
        ("caution", DirectiveKind::Admonition),
        ("danger", DirectiveKind::Admonition),
        ("attention", DirectiveKind::Admonition),
        ("error", DirectiveKind::Admonition),
        ("hint", DirectiveKind::Admonition),
        ("important", DirectiveKind::Admonition),
        ("admonition", DirectiveKind::GenericAdmonition),
        ("seealso", DirectiveKind::SeeAlso),
        ("image", DirectiveKind::Image),
        ("figure", DirectiveKind::Figure),
        ("topic", DirectiveKind::Topic),
        ("sidebar", DirectiveKind::Sidebar),
        ("rubric", DirectiveKind::Rubric),
        ("centered", DirectiveKind::Centered),
        ("epigraph", DirectiveKind::Blockquote),
        ("highlights", DirectiveKind::Blockquote),
        ("pull-quote", DirectiveKind::Blockquote),
        ("compound", DirectiveKind::Compound),
        ("container", DirectiveKind::Container),
        ("contents", DirectiveKind::Contents),
        ("table", DirectiveKind::Table),
        ("csv-table", DirectiveKind::CsvTable),
        ("list-table", DirectiveKind::ListTable),
        ("raw", DirectiveKind::Raw),
        ("include", DirectiveKind::Include),
        ("class", DirectiveKind::Container),
        ("meta", DirectiveKind::Meta),
        ("math", DirectiveKind::Math),
        ("toctree", DirectiveKind::Toctree),
        ("versionadded", DirectiveKind::VersionAdded),
        ("versionchanged", DirectiveKind::VersionChanged),
        ("deprecated", DirectiveKind::Deprecated),
        ("glossary", DirectiveKind::Glossary),
        ("productionlist", DirectiveKind::ProductionList),
        ("doctest", DirectiveKind::Doctest),
        ("testcode", DirectiveKind::Testcode),
        ("testoutput", DirectiveKind::Testoutput),
        ("unicode", DirectiveKind::Unicode),
        ("date", DirectiveKind::Date),
        ("replace", DirectiveKind::Replace),
        ("role", DirectiveKind::Silent),
        ("sectnum", DirectiveKind::Silent),
        ("header", DirectiveKind::Silent),
        ("footer", DirectiveKind::Silent),
        ("target-notes", DirectiveKind::TargetNotes),
    ];
    assert(names_view(t@) =~= directive_names());
    t
}

/// Looks the kind of a directive up by its name.
pub fn kind_of(name: &Vec<char>) -> (k: DirectiveKind)
    ensures
        k == directive_kind(name@),
{
    let table = directive_table();
    let mut i: usize = 0;
    while i < table.len()
        invariant
            i <= table.len(),
            names_view(table@) == directive_names(),
            kind_from(directive_names(), name@, i as int) == directive_kind(name@),
        decreases table.len() - i,
    {
        assert(names_view(table@)[i as int] == (table@[i as int].0@, table@[i as int].1));
        if is_str(name, table[i].0) {
            return table[i].1;
        }
        i += 1;
    }
    DirectiveKind::Unknown
}

/// Whether the renderer of a directive writes its content as blocks.
pub open spec fn uses_body(d: DirectiveView) -> bool {
    match directive_kind(d.name) {
        DirectiveKind::Admonition | DirectiveKind::GenericAdmonition | DirectiveKind::SeeAlso
        | DirectiveKind::Topic | DirectiveKind::Sidebar | DirectiveKind::Blockquote
        | DirectiveKind::Compound | DirectiveKind::Container | DirectiveKind::VersionAdded
        | DirectiveKind::VersionChanged | DirectiveKind::Deprecated => true,
        DirectiveKind::Unknown => d.content.len() > 0,
        _ => false,
    }
}

/// The legend of a figure: what follows the first blank line of its
/// content.
pub open spec fn figure_legend(content: Seq<char>) -> Option<Seq<char>> {
    let c = trimmed(content);
    match find(c, "\n\n"@) {
        Some(p) => Some(c.subrange(p + 2, c.len() as int)),
        None => None,
    }
}

/// Whether the renderer of a directive writes a legend as blocks.
pub open spec fn uses_legend(d: DirectiveView) -> bool {
    directive_kind(d.name) == DirectiveKind::Figure && d.content.len() > 0 && figure_legend(
        d.content,
    ) is Some
}

/// Whether the renderer of a directive writes its content as blocks.
pub fn has_body(d: &Directive) -> (b: bool)
    ensures
        b == uses_body(d@),
{
    match kind_of(&d.name) {
        DirectiveKind::Admonition | DirectiveKind::GenericAdmonition | DirectiveKind::SeeAlso
        | DirectiveKind::Topic | DirectiveKind::Sidebar | DirectiveKind::Blockquote
        | DirectiveKind::Compound | DirectiveKind::Container | DirectiveKind::VersionAdded
        | DirectiveKind::VersionChanged | DirectiveKind::Deprecated => true,
        DirectiveKind::Unknown => d.content.len() > 0,
        _ => false,
    }
}

/// The text that an optional vector of scalar values holds.
pub open spec fn opt_text(r: Option<Vec<char>>) -> Option<Seq<char>> {
    match r {
        Some(v) => Some(v@),
        None => None,
    }
}

/// The legend of a figure, where the directive is a figure with one.
pub fn legend_of(d: &Directive) -> (r: Option<Vec<char>>)
    ensures
        (r is Some) == uses_legend(d@),
        uses_legend(d@) ==> opt_text(r) == figure_legend(d.content@),
{
    match kind_of(&d.name) {
        DirectiveKind::Figure => {},
        _ => {
            return None;
        },
    }
    if d.content.len() == 0 {
        return None;
    }
    let c = trim(&d.content);
    proof {
        reveal_strlit("\n\n");
    }
    match find_str(&c, "\n\n") {
        Some(p) => Some(skip(&c, p + 2)),
        None => None,
    }
}

/// `pre`, the escaped value and `post`, where there is a value.
pub open spec fn escaped_part(o: Option<Seq<char>>, pre: Seq<char>, post: Seq<char>) -> Seq<char> {
    match o {
        Some(v) => pre + escaped(v) + post,
        None => Seq::empty(),
    }
}

/// `pre`, the value as it is and `post`, where there is a value.
pub open spec fn raw_part(o: Option<Seq<char>>, pre: Seq<char>, post: Seq<char>) -> Seq<char> {
    match o {
        Some(v) => pre + v + post,
        None => Seq::empty(),
    }
}

fn push_escaped_part(out: &mut Vec<char>, o: Option<&Vec<char>>, pre: &str, post: &str)
    ensures
        final(out)@ == old(out)@ + escaped_part(found_view(o), pre@, post@),
{
    match o {
        Some(v) => {
            let e = escape(v);
            let piece = concat3(pre, &e, post);
            extend(out, &piece);
        },
        None => {
            assert(out@ + Seq::<char>::empty() =~= out@);
        },
    }
}

fn push_raw_part(out: &mut Vec<char>, o: Option<&Vec<char>>, pre: &str, post: &str)
    ensures
        final(out)@ == old(out)@ + raw_part(found_view(o), pre@, post@),
{
    match o {
        Some(v) => {
            let piece = concat3(pre, v, post);
            extend(out, &piece);
        },
        None => {
            assert(out@ + Seq::<char>::empty() =~= out@);
        },
    }
}

/// `s` with its first value in upper case.
pub open spec fn capitalized(s: Seq<char>) -> Seq<char> {
    if s.len() == 0 {
        Seq::empty()
    } else {
        uppercase(s[0]) + s.subrange(1, s.len() as int)
    }
}

fn capitalize_first(s: &Vec<char>) -> (r: Vec<char>)
    ensures
        r@ == capitalized(s@),
{
    if s.len() == 0 {
        return Vec::new();
    }
    let mut out = to_uppercase(s[0]);
    let rest = skip(s, 1);
    extend(&mut out, &rest);
    out
}

/// A code block: an optional caption, then the dedented content, escaped, in
/// `pre` and `code`; the arguments name the language.
pub open spec fn code_block_html(d: DirectiveView) -> Seq<char> {
    escaped_part(
        value_of(d.options, "caption"@),
        "<div class=\"code-block-caption\">"@,
        "</div>"@,
    ) + "<pre class=\"code-block"@ + (if d.options.contains_key("linenos"@) {
        " linenos"@
    } else {
        Seq::empty()
    }) + "\"><code"@ + language_class(trimmed(d.arguments)) + ">"@ + escaped(
        trimmed_end(dedented(d.content)),
    ) + "</code></pre>"@
}

fn push_language_class(out: &mut Vec<char>, lang: &Vec<char>)
    ensures
        final(out)@ == old(out)@ + language_class(lang@),
{
    if lang.len() > 0 {
        let e = escape(lang);
        let class = concat3(" class=\"language-", &e, "\"");
        extend(out, &class);
    } else {
        assert(out@ + Seq::<char>::empty() =~= out@);
    }
}

fn render_code_block(d: &Directive) -> (r: Vec<char>)
    ensures
        r@ == code_block_html(d@),
{
    let lang = trim(&d.arguments);
    let code = dedent_text(&d.content);
    let mut out: Vec<char> = Vec::new();
    push_escaped_part(
        &mut out,
        d.options.lookup("caption"),
        "<div class=\"code-block-caption\">",
        "</div>",
    );
    assert(Seq::<char>::empty() + escaped_part(
        value_of(d.options@, "caption"@),
        "<div class=\"code-block-caption\">"@,
        "</div>"@,
    ) =~= escaped_part(
        value_of(d.options@, "caption"@),
        "<div class=\"code-block-caption\">"@,
        "</div>"@,
    ));
    push_str(&mut out, "<pre class=\"code-block");
    push_if(&mut out, d.options.contains_key("linenos"), " linenos");
    push_str(&mut out, "\"><code");
    push_language_class(&mut out, &lang);
    push_str(&mut out, ">");
    let t = trim_end(&code);
    let e = escape(&t);
    extend(&mut out, &e);
    push_str(&mut out, "</code></pre>");
    out
}

/// A callout whose title is the name of the directive with a capital first
/// letter.
pub open spec fn admonition_html(d: DirectiveView, body: Seq<char>) -> Seq<char> {
    "<div class=\"admonition "@ + d.name + "\">\n<p class=\"admonition-title\">"@ + capitalized(
        d.name,
    ) + "</p>\n"@ + body + "\n</div>"@
}

/// `open`, the escaped and trimmed arguments, `mid`, the body and `close`.
pub open spec fn titled_html(
    open: Seq<char>,
    arguments: Seq<char>,
    mid: Seq<char>,
    body: Seq<char>,
    close: Seq<char>,
) -> Seq<char> {
    open + escaped(trimmed(arguments)) + mid + body + close
}

fn render_titled(open: &str, arguments: &Vec<char>, mid: &str, body: &Vec<char>, close: &str)
    -> (r: Vec<char>)
    ensures
        r@ == titled_html(open@, arguments@, mid@, body@, close@),
{
    let t = trim(arguments);
    let e = escape(&t);
    concat5(open, &e, mid, body, close)
}

/// The attributes of an image: its source, its alternative text, and
/// its size as a style.
pub open spec fn image_attrs(d: DirectiveView, with_height: bool) -> Seq<char> {
    let style = raw_part(value_of(d.options, "width"@), "width: "@, ";"@) + if with_height {
        raw_part(value_of(d.options, "height"@), "height: "@, ";"@)
    } else {
        Seq::empty()
    };
    "src=\""@ + escaped(trimmed(d.arguments)) + "\""@ + escaped_part(
        value_of(d.options, "alt"@),
        " alt=\""@,
        "\""@,
    ) + if style.len() > 0 {
        " style=\""@ + style + "\""@
    } else {
        Seq::empty()
    }
}

fn render_image_attrs(d: &Directive, with_height: bool) -> (r: Vec<char>)
    ensures
        r@ == image_attrs(d@, with_height),
{
    let mut style: Vec<char> = Vec::new();
    push_raw_part(&mut style, d.options.lookup("width"), "width: ", ";");
    assert(Seq::<char>::empty() + raw_part(value_of(d.options@, "width"@), "width: "@, ";"@)
        =~= raw_part(value_of(d.options@, "width"@), "width: "@, ";"@));
    if with_height {
        push_raw_part(&mut style, d.options.lookup("height"), "height: ", ";");
    } else {
        assert(style@ + Seq::<char>::empty() =~= style@);
    }
    let src = trim(&d.arguments);
    let e = escape(&src);
    let mut out = concat3("src=\"", &e, "\"");
    push_escaped_part(&mut out, d.options.lookup("alt"), " alt=\"", "\"");
    if style.len() > 0 {
        let s = concat3(" style=\"", &style, "\"");
        extend(&mut out, &s);
    } else {
        assert(out@ + Seq::<char>::empty() =~= out@);
    }
    out
}

/// An image, inside a link where a target is given.
pub open spec fn image_html(d: DirectiveView) -> Seq<char> {
    let img = "<img "@ + image_attrs(d, true) + ">"@;
    match value_of(d.options, "target"@) {
        Some(t) => "<a href=\""@ + escaped(t) + "\">"@ + img + "</a>"@,
        None => img,
    }
}

fn render_image(d: &Directive) -> (r: Vec<char>)
    ensures
        r@ == image_html(d@),
{
    let attrs = render_image_attrs(d, true);
    let img = concat3("<img ", &attrs, ">");
    match d.options.lookup("target") {
        Some(t) => {
            let e = escape(t);
            concat5("<a href=\"", &e, "\">", &img, "</a>")
        },
        None => img,
    }
}

/// The caption of a figure, and its legend where it has one.
pub open spec fn figure_caption(content: Seq<char>, legend: Seq<char>) -> Seq<char> {
    let c = trimmed(content);
    if content.len() == 0 {
        Seq::empty()
    } else {
        match find(c, "\n\n"@) {
            Some(p) => "<figcaption>"@ + inline_html(c.subrange(0, p)) + "</figcaption>\n"@
                + "<div class=\"legend\">"@ + legend + "</div>\n"@,
            None => "<figcaption>"@ + inline_html(c) + "</figcaption>\n"@,
        }
    }
}

/// A figure: an image with its caption and legend.
pub open spec fn figure_html(d: DirectiveView, legend: Seq<char>) -> Seq<char> {
    "<figure class=\"figure"@ + raw_part(value_of(d.options, "figclass"@), " "@, ""@) + raw_part(
        value_of(d.options, "align"@),
        " align-"@,
        ""@,
    ) + "\">\n<img "@ + image_attrs(d, false) + ">\n"@ + figure_caption(d.content, legend)
        + "</figure>"@
}

fn render_figure(d: &Directive, legend: &Vec<char>) -> (r: Vec<char>)
    ensures
        r@ == figure_html(d@, legend@),
{
    let mut out = chars_of("<figure class=\"figure");
    push_raw_part(&mut out, d.options.lookup("figclass"), " ", "");
    push_raw_part(&mut out, d.options.lookup("align"), " align-", "");
    push_str(&mut out, "\">\n<img ");
    let attrs = render_image_attrs(d, false);
    extend(&mut out, &attrs);
    push_str(&mut out, ">\n");
    if d.content.len() == 0 {
        assert(out@ + Seq::<char>::empty() =~= out@);
    } else {
        let c = trim(&d.content);
        proof {
            reveal_strlit("\n\n");
        }
        match find_str(&c, "\n\n") {
            Some(p) => {
                let first = take(&c, p);
                let h = process_inline_text(&first);
                let mut cap = concat3("<figcaption>", &h, "</figcaption>\n");
                push_str(&mut cap, "<div class=\"legend\">");
                extend(&mut cap, legend);
                push_str(&mut cap, "</div>\n");
                extend(&mut out, &cap);
            },
            None => {
                let h = process_inline_text(&c);
                let cap = concat3("<figcaption>", &h, "</figcaption>\n");
                extend(&mut out, &cap);
            },
        }
    }
    push_str(&mut out, "</figure>");
    out
}

/// A sidebar with its title and optional subtitle.
pub open spec fn sidebar_html(d: DirectiveView, body: Seq<char>) -> Seq<char> {
    "<aside class=\"sidebar\">\n<p class=\"sidebar-title\">"@ + escaped(trimmed(d.arguments))
        + "</p>\n"@ + escaped_part(
        value_of(d.options, "subtitle"@),
        "<p class=\"sidebar-subtitle\">"@,
        "</p>\n"@,
    ) + body + "\n</aside>"@
}

fn render_sidebar(d: &Directive, body: &Vec<char>) -> (r: Vec<char>)
    ensures
        r@ == sidebar_html(d@, body@),
{
    let t = trim(&d.arguments);
    let e = escape(&t);
    let mut out = concat3("<aside class=\"sidebar\">\n<p class=\"sidebar-title\">", &e, "</p>\n");
    push_escaped_part(
        &mut out,
        d.options.lookup("subtitle"),
        "<p class=\"sidebar-subtitle\">",
        "</p>\n",
    );
    extend(&mut out, body);
    push_str(&mut out, "\n</aside>");
    out
}

/// Two spaces, `n` times.
pub open spec fn pad(n: int) -> Seq<char>
    decreases n,
{
    if n <= 0 {
        Seq::empty()
    } else {
        pad(n - 1) + "  "@
    }
}

/// The entry of a title in a table of contents; titles of the first level
/// have none.
pub open spec fn toc_entry(level: int, title: Seq<char>) -> Seq<char> {
    if level > 1 {
        pad(level - 2) + "<li><a href=\"#"@ + slug(title) + "\">"@ + escaped(title)
            + "</a></li>\n"@
    } else {
        Seq::empty()
    }
}

/// The entries of the first `n` titles in a table of contents.
pub open spec fn toc_upto(titles: Seq<(int, Seq<char>)>, n: int) -> Seq<char>
    decreases n,
{
    if n <= 0 {
        Seq::empty()
    } else {
        toc_upto(titles, n - 1) + toc_entry(titles[n - 1].0, titles[n - 1].1)
    }
}

/// A table of contents made from the titles of the document.
pub open spec fn contents_html(d: DirectiveView, meta: Meta) -> Seq<char> {
    "<div class=\"contents\">\n<p class=\"topic-title\">"@ + escaped(
        if d.arguments.len() > 0 {
            trimmed(d.arguments)
        } else {
            "Contents"@
        },
    ) + "</p>\n"@ + (if meta.section_titles.len() > 0 {
        "<ul class=\"toc\">\n"@ + toc_upto(meta.section_titles, meta.section_titles.len() as int)
            + "</ul>\n"@
    } else {
        Seq::empty()
    }) + "</div>"@
}

fn render_contents(d: &Directive, state: &ConverterState) -> (r: Vec<char>)
    ensures
        r@ == contents_html(d@, state@),
{
    let title = if d.arguments.len() > 0 {
        trim(&d.arguments)
    } else {
        chars_of("Contents")
    };
    let e = escape(&title);
    let mut out = concat3("<div class=\"contents\">\n<p class=\"topic-title\">", &e, "</p>\n");
    let ghost tv = titles_view(state.section_titles@);
    if state.section_titles.len() > 0 {
        let mut toc: Vec<char> = Vec::new();
        let mut k: usize = 0;
        while k < state.section_titles.len()
            invariant
                k <= state.section_titles.len(),
                tv == titles_view(state.section_titles@),
                toc@ == toc_upto(tv, k as int),
            decreases state.section_titles.len() - k,
        {
            let level = state.section_titles[k].0;
            let text = chars_of(state.section_titles[k].1.as_str());
            assert(tv[k as int] == (level as int, text@));
            if level > 1 {
                let mut entry: Vec<char> = Vec::new();
                let mut n: u8 = 0;
                while n < level - 2
                    invariant
                        n <= level - 2,
                        level > 1,
                        entry@ == pad(n as int),
                    decreases level - 2 - n,
                {
                    push_str(&mut entry, "  ");
                    n += 1;
                }
                let s = slugify_text(&text);
                let shown = escape(&text);
                let link = concat5("<li><a href=\"#", &s, "\">", &shown, "</a></li>\n");
                extend(&mut entry, &link);
                assert(entry@ =~= toc_entry(level as int, text@));
                extend(&mut toc, &entry);
            } else {
                assert(toc@ + Seq::<char>::empty() =~= toc@);
            }
            k += 1;
        }
        let list = concat3("<ul class=\"toc\">\n", &toc, "</ul>\n");
        extend(&mut out, &list);
    } else {
        assert(out@ + Seq::<char>::empty() =~= out@);
    }
    push_str(&mut out, "</div>");
    out
}

/// A table directive: a table that holds its caption.
pub open spec fn table_html(d: DirectiveView) -> Seq<char> {
    if d.content.len() > 0 && simple_table(trimmed(d.content)) {
        "<table>\n<caption>"@ + escaped(trimmed(d.arguments)) + "</caption>\n</table>"@
    } else {
        "<table>\n"@ + caption(trimmed(d.arguments)) + "</table>"@
    }
}

fn render_table_directive(d: &Directive) -> (r: Vec<char>)
    ensures
        r@ == table_html(d@),
{
    let title = trim(&d.arguments);
    if d.content.len() > 0 {
        let c = trim(&d.content);
        if is_simple_table_text(&c) {
            let e = escape(&title);
            return concat3("<table>\n<caption>", &e, "</caption>\n</table>");
        }
    }
    let mut out = chars_of("<table>\n");
    push_caption(&mut out, &title);
    push_str(&mut out, "</table>");
    out
}

/// The number that an option gives, or nought where it gives none.
pub open spec fn count_option(options: Map<Seq<char>, Seq<char>>, key: Seq<char>) -> int {
    match value_of(options, key) {
        Some(v) => match parsed(v, 10, usize::MAX as int) {
            Some(n) => n,
            None => 0,
        },
        None => 0,
    }
}

fn count_of(options: &Options, key: &str) -> (r: usize)
    ensures
        r == count_option(options@, key@),
{
    match options.lookup(key) {
        Some(v) => match parse_number(v, 10, usize::MAX as u64) {
            Some(n) => n as usize,
            None => 0,
        },
        None => 0,
    }
}

/// Raw content: HTML as it is, any other format as a comment.
pub open spec fn raw_html(d: DirectiveView) -> Seq<char> {
    if trimmed(d.arguments) == "html"@ {
        d.content
    } else {
        "<!-- "@ + capitalized(trimmed(d.arguments)) + ": "@ + escaped(d.content) + " -->"@
    }
}

fn render_raw(d: &Directive) -> (r: Vec<char>)
    ensures
        r@ == raw_html(d@),
{
    let format = trim(&d.arguments);
    if is_str(&format, "html") {
        copy_text(&d.content)
    } else {
        let c = capitalize_first(&format);
        let e = escape(&d.content);
        concat5("<!-- ", &c, ": ", &e, " -->")
    }
}

/// A block of mathematics, escaped and not typeset.
pub open spec fn math_html(d: DirectiveView) -> Seq<char> {
    (match value_of(d.options, "label"@) {
        Some(l) => "<div class=\"math-block\" id=\"equation-"@ + escaped(l) + "\">\n"@,
        None => "<div class=\"math-block\">\n"@,
    }) + escaped(trimmed(d.content)) + "\n</div>"@
}

fn render_math(d: &Directive) -> (r: Vec<char>)
    ensures
        r@ == math_html(d@),
{
    let mut out = match d.options.lookup("label") {
        Some(l) => {
            let e = escape(l);
            concat3("<div class=\"math-block\" id=\"equation-", &e, "\">\n")
        },
        None => chars_of("<div class=\"math-block\">\n"),
    };
    let t = trim(&d.content);
    let e = escape(&t);
    extend(&mut out, &e);
    push_str(&mut out, "\n</div>");
    out
}

/// A table of documents: one link for each line of the content.
pub open spec fn toctree_html(d: DirectiveView) -> Seq<char> {
    "<nav class=\"toctree-wrapper\">\n"@ + escaped_part(
        value_of(d.options, "caption"@),
        "<p class=\"caption\">"@,
        "</p>\n"@,
    ) + "<ul>\n"@ + toctree_upto(lines_of(d.content), lines_of(d.content).len() as int)
        + "</ul>\n</nav>"@
}

fn render_toctree(d: &Directive) -> (r: Vec<char>)
    ensures
        r@ == toctree_html(d@),
{
    let mut out = chars_of("<nav class=\"toctree-wrapper\">\n");
    push_escaped_part(&mut out, d.options.lookup("caption"), "<p class=\"caption\">", "</p>\n");
    push_str(&mut out, "<ul>\n");
    let entries = render_toctree_entries(&d.content);
    extend(&mut out, &entries);
    push_str(&mut out, "</ul>\n</nav>");
    out
}

/// A note on the version in which something was added or changed.
pub open spec fn version_html(d: DirectiveView, prefix: Seq<char>, body: Seq<char>) -> Seq<char> {
    "<div class=\""@ + d.name + "\">\n<span class=\"versionmodified\">"@ + prefix + " "@
        + escaped(trimmed(d.arguments)) + ": </span>"@ + body + "\n</div>"@
}

fn render_version(d: &Directive, prefix: &str, body: &Vec<char>) -> (r: Vec<char>)
    ensures
        r@ == version_html(d@, prefix@, body@),
{
    let mut out = concat3("<div class=\"", &d.name, "\">\n<span class=\"versionmodified\">");
    push_str(&mut out, prefix);
    push_str(&mut out, " ");
    let t = trim(&d.arguments);
    let e = escape(&t);
    extend(&mut out, &e);
    push_str(&mut out, ": </span>");
    extend(&mut out, body);
    push_str(&mut out, "\n</div>");
    out
}

/// The escaped, trimmed and dedented content between `open` and `close`.
pub open spec fn listing_html(open: Seq<char>, content: Seq<char>, close: Seq<char>) -> Seq<char> {
    open + escaped(trimmed(dedented(content))) + close
}

fn render_listing(open: &str, content: &Vec<char>, close: &str) -> (r: Vec<char>)
    ensures
        r@ == listing_html(open@, content@, close@),
{
    let code = dedent_text(content);
    let t = trim(&code);
    let e = escape(&t);
    concat3(open, &e, close)
}

/// A doctest block; a doctest that belongs to a group is not shown.
pub open spec fn doctest_html(d: DirectiveView) -> Seq<char> {
    if trimmed(d.arguments).len() > 0 {
        Seq::empty()
    } else {
        listing_html(
            "<pre class=\"doctest\"><code class=\"language-python\">"@,
            d.content,
            "</code></pre>"@,
        )
    }
}

/// The entries of the first `n` hyperlink targets.
pub open spec fn target_notes_upto(targets: Seq<(Seq<char>, Seq<char>)>, n: int) -> Seq<char>
    decreases n,
{
    if n <= 0 {
        Seq::empty()
    } else {
        target_notes_upto(targets, n - 1) + "<li><a href=\""@ + escaped(targets[n - 1].1)
            + "\">"@ + escaped(targets[n - 1].0) + "</a></li>\n"@
    }
}

/// The list of the hyperlink targets of the document; nothing where there are
/// none.
pub open spec fn target_notes_html(meta: Meta) -> Seq<char> {
    if meta.target_references.len() == 0 {
        Seq::empty()
    } else {
        "<div class=\"target-notes\">\n<ol>\n"@ + target_notes_upto(
            meta.target_references,
            meta.target_references.len() as int,
        ) + "</ol>\n</div>"@
    }
}

fn render_target_notes(state: &ConverterState) -> (r: Vec<char>)
    ensures
        r@ == target_notes_html(state@),
{
    if state.target_references.len() == 0 {
        return Vec::new();
    }
    let ghost tv = pairs_view(state.target_references@);
    let mut items: Vec<char> = Vec::new();
    let mut k: usize = 0;
    while k < state.target_references.len()
        invariant
            k <= state.target_references.len(),
            tv == pairs_view(state.target_references@),
            items@ == target_notes_upto(tv, k as int),
        decreases state.target_references.len() - k,
    {
        let name = chars_of(state.target_references[k].0.as_str());
        let url = chars_of(state.target_references[k].1.as_str());
        assert(tv[k as int] == (name@, url@));
        let u = escape(&url);
        let n = escape(&name);
        push_str(&mut items, "<li><a href=\"");
        extend(&mut items, &u);
        push_str(&mut items, "\">");
        extend(&mut items, &n);
        push_str(&mut items, "</a></li>\n");
        k += 1;
    }
    concat3("<div class=\"target-notes\">\n<ol>\n", &items, "</ol>\n</div>")
}

/// A container for a directive that is not known: it keeps the name, the
/// arguments and the content.
pub open spec fn unknown_html(d: DirectiveView, body: Seq<char>) -> Seq<char> {
    "<div class=\"directive-"@ + escaped(d.name) + "\">\n"@ + (if d.arguments.len() > 0 {
        "<div class=\"directive-arguments\">"@ + escaped(trimmed(d.arguments)) + "</div>\n"@
    } else {
        Seq::empty()
    }) + (if d.content.len() > 0 {
        "<div class=\"directive-content\">"@ + body + "</div>\n"@
    } else {
        Seq::empty()
    }) + "</div>"@
}

fn render_unknown(d: &Directive, body: &Vec<char>) -> (r: Vec<char>)
    ensures
        r@ == unknown_html(d@, body@),
{
    let e = escape(&d.name);
    let mut out = concat3("<div class=\"directive-", &e, "\">\n");
    let t = trim(&d.arguments);
    let a = escape(&t);
    let args = concat3("<div class=\"directive-arguments\">", &a, "</div>\n");
    extend_if(&mut out, d.arguments.len() > 0, &args);
    let content = concat3("<div class=\"directive-content\">", body, "</div>\n");
    extend_if(&mut out, d.content.len() > 0, &content);
    push_str(&mut out, "</div>");
    out
}

/// The HTML of a directive, given the moment of the conversion, its
/// content rendered as blocks (`body`) and its legend rendered as blocks
/// (`legend`). A name that is not known gives a container that keeps the
/// arguments and the content.
pub open spec fn directive_html(
    d: DirectiveView,
    meta: Meta,
    now: Moment,
    body: Seq<char>,
    legend: Seq<char>,
) -> Seq<char> {
    match directive_kind(d.name) {
        DirectiveKind::CodeBlock => code_block_html(d),
        DirectiveKind::ParsedLiteral => "<pre class=\"parsed-literal\">"@ + inline_html(d.content)
            + "</pre>"@,
        DirectiveKind::Admonition => admonition_html(d, body),
        DirectiveKind::GenericAdmonition => titled_html(
            "<div class=\"admonition\">\n<p class=\"admonition-title\">"@,
            d.arguments,
            "</p>\n"@,
            body,
            "\n</div>"@,
        ),
        DirectiveKind::SeeAlso => "<div class=\"admonition seealso\">\n<p class=\"admonition-title\">See Also</p>\n"@
            + body + "\n</div>"@,
        DirectiveKind::Image => image_html(d),
        DirectiveKind::Figure => figure_html(d, legend),
        DirectiveKind::Topic => titled_html(
            "<div class=\"topic\">\n<p class=\"topic-title\">"@,
            d.arguments,
            "</p>\n"@,
            body,
            "\n</div>"@,
        ),
        DirectiveKind::Sidebar => sidebar_html(d, body),
        DirectiveKind::Rubric => "<p class=\"rubric\">"@ + inline_html(trimmed(d.arguments))
            + "</p>"@,
        DirectiveKind::Centered => "<p class=\"centered\" style=\"text-align: center\">"@
            + inline_html(trimmed(d.arguments)) + "</p>"@,
        DirectiveKind::Blockquote => "<blockquote class=\""@ + d.name + "\">\n"@ + body
            + "\n</blockquote>"@,
        DirectiveKind::Compound => "<div class=\"compound\">\n"@ + body + "\n</div>"@,
        DirectiveKind::Container => titled_html(
            "<div class=\""@,
            d.arguments,
            "\">\n"@,
            body,
            "\n</div>"@,
        ),
        DirectiveKind::Contents => contents_html(d, meta),
        DirectiveKind::Table => table_html(d),
        DirectiveKind::CsvTable => csv_table_html(
            trimmed(d.arguments),
            value_of(d.options, "header"@),
            value_of(d.options, "widths"@),
            value_of(d.options, "align"@),
            d.content,
        ),
        DirectiveKind::ListTable => list_table_html(
            trimmed(d.arguments),
            count_option(d.options, "header-rows"@),
            count_option(d.options, "stub-columns"@),
            value_of(d.options, "widths"@),
            value_of(d.options, "align"@),
            d.content,
        ),
        DirectiveKind::Raw => raw_html(d),
        DirectiveKind::Include => "<p class=\"include\">Include: "@ + escaped(
            trimmed(d.arguments),
        ) + "</p>"@,
        DirectiveKind::Meta => "<!-- meta: "@ + escaped(d.content) + " -->"@,
        DirectiveKind::Math => math_html(d),
        DirectiveKind::Toctree => toctree_html(d),
        DirectiveKind::VersionAdded => version_html(d, "New in version"@, body),
        DirectiveKind::VersionChanged => version_html(d, "Changed in version"@, body),
        DirectiveKind::Deprecated => titled_html(
            "<div class=\"deprecated\">\n<span class=\"versionmodified\">Deprecated since version "@,
            d.arguments,
            ": </span>"@,
            body,
            "\n</div>"@,
        ),
        DirectiveKind::Glossary => glossary_html(d.content, d.options.contains_key("sorted"@)),
        DirectiveKind::ProductionList => productionlist_html(d.content),
        DirectiveKind::Doctest => doctest_html(d),
        DirectiveKind::Testcode => listing_html(
            "<pre class=\"testcode\"><code>"@,
            d.content,
            "</code></pre>"@,
        ),
        DirectiveKind::Testoutput => listing_html(
            "<pre class=\"testoutput\"><samp>"@,
            d.content,
            "</samp></pre>"@,
        ),
        DirectiveKind::Unicode => unicode_text(d.arguments, true),
        DirectiveKind::Date => date_text(trimmed(d.arguments), now),
        DirectiveKind::Replace => inline_html(trimmed(d.arguments)),
        DirectiveKind::Silent => Seq::empty(),
        DirectiveKind::TargetNotes => target_notes_html(meta),
        DirectiveKind::Unknown => unknown_html(d, body),
    }
}

fn inline_wrapped(open: &str, text: &Vec<char>, close: &str) -> (r: Vec<char>)
    ensures
        r@ == open@ + inline_html(text@) + close@,
{
    let h = process_inline_text(text);
    concat3(open, &h, close)
}

/// Renders a directive, given its content and its legend rendered as
/// blocks.
pub fn render_directive_with(
    d: &Directive,
    state: &ConverterState,
    now: &Moment,
    body: &Vec<char>,
    legend: &Vec<char>,
) -> (r: Vec<char>)
    ensures
        r@ == directive_html(d@, state@, *now, body@, legend@),
{
    match kind_of(&d.name) {
        DirectiveKind::CodeBlock => render_code_block(d),
        DirectiveKind::ParsedLiteral => inline_wrapped(
            "<pre class=\"parsed-literal\">",
            &d.content,
            "</pre>",
        ),
        DirectiveKind::Admonition => {
            let title = capitalize_first(&d.name);
            let mut out = concat5(
                "<div class=\"admonition ",
                &d.name,
                "\">\n<p class=\"admonition-title\">",
                &title,
                "</p>\n",
            );
            extend(&mut out, body);
            push_str(&mut out, "\n</div>");
            out
        },
        DirectiveKind::GenericAdmonition => render_titled(
            "<div class=\"admonition\">\n<p class=\"admonition-title\">",
            &d.arguments,
            "</p>\n",
            body,
            "\n</div>",
        ),
        DirectiveKind::SeeAlso => concat3(
            "<div class=\"admonition seealso\">\n<p class=\"admonition-title\">See Also</p>\n",
            body,
            "\n</div>",
        ),
        DirectiveKind::Image => render_image(d),
        DirectiveKind::Figure => render_figure(d, legend),
        DirectiveKind::Topic => render_titled(
            "<div class=\"topic\">\n<p class=\"topic-title\">",
            &d.arguments,
            "</p>\n",
            body,
            "\n</div>",
        ),
        DirectiveKind::Sidebar => render_sidebar(d, body),
        DirectiveKind::Rubric => {
            let t = trim(&d.arguments);
            inline_wrapped("<p class=\"rubric\">", &t, "</p>")
        },
        DirectiveKind::Centered => {
            let t = trim(&d.arguments);
            inline_wrapped("<p class=\"centered\" style=\"text-align: center\">", &t, "</p>")
        },
        DirectiveKind::Blockquote => concat5(
            "<blockquote class=\"",
            &d.name,
            "\">\n",
            body,
            "\n</blockquote>",
        ),
        DirectiveKind::Compound => concat3("<div class=\"compound\">\n", body, "\n</div>"),
        DirectiveKind::Container => render_titled(
            "<div class=\"",
            &d.arguments,
            "\">\n",
            body,
            "\n</div>",
        ),
        DirectiveKind::Contents => render_contents(d, state),
        DirectiveKind::Table => render_table_directive(d),
        DirectiveKind::CsvTable => {
            let title = trim(&d.arguments);
            convert_csv_table_text(
                &title,
                d.options.lookup("header"),
                d.options.lookup("widths"),
                d.options.lookup("align"),
                &d.content,
            )
        },
        DirectiveKind::ListTable => {
            let title = trim(&d.arguments);
            convert_list_table_text(
                &title,
                count_of(&d.options, "header-rows"),
                count_of(&d.options, "stub-columns"),
                d.options.lookup("widths"),
                d.options.lookup("align"),
                &d.content,
            )
        },
        DirectiveKind::Raw => render_raw(d),
        DirectiveKind::Include => {
            let t = trim(&d.arguments);
            let e = escape(&t);
            concat3("<p class=\"include\">Include: ", &e, "</p>")
        },
        DirectiveKind::Meta => {
            let e = escape(&d.content);
            concat3("<!-- meta: ", &e, " -->")
        },
        DirectiveKind::Math => render_math(d),
        DirectiveKind::Toctree => render_toctree(d),
        DirectiveKind::VersionAdded => render_version(d, "New in version", body),
        DirectiveKind::VersionChanged => render_version(d, "Changed in version", body),
        DirectiveKind::Deprecated => render_titled(
            "<div class=\"deprecated\">\n<span class=\"versionmodified\">Deprecated since version ",
            &d.arguments,
            ": </span>",
            body,
            "\n</div>",
        ),
        DirectiveKind::Glossary => render_glossary(
            &d.content,
            d.options.contains_key("sorted"),
        ),
        DirectiveKind::ProductionList => render_productionlist(&d.content),
        DirectiveKind::Doctest => {
            let t = trim(&d.arguments);
            if t.len() > 0 {
                Vec::new()
            } else {
                render_listing(
                    "<pre class=\"doctest\"><code class=\"language-python\">",
                    &d.content,
                    "</code></pre>",
                )
            }
        },
        DirectiveKind::Testcode => render_listing(
            "<pre class=\"testcode\"><code>",
            &d.content,
            "</code></pre>",
        ),
        DirectiveKind::Testoutput => render_listing(
            "<pre class=\"testoutput\"><samp>",
            &d.content,
            "</samp></pre>",
        ),
        DirectiveKind::Unicode => render_unicode(&d.arguments, true),
        DirectiveKind::Date => {
            let t = trim(&d.arguments);
            render_date(&t, now)
        },
        DirectiveKind::Replace => {
            let t = trim(&d.arguments);
            process_inline_text(&t)
        },
        DirectiveKind::Silent => Vec::new(),
        DirectiveKind::TargetNotes => render_target_notes(state),
        DirectiveKind::Unknown => render_unknown(d, body),
    }
}

} // verus!
