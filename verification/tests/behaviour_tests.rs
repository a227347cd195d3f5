use rst2html::clock::Moment;
use rst2html::converter::{convert_rst_content, convert_rst_content_at};
use rst2html::directives::{render_directive, DirectiveInfo};
use rst2html::html_utils::{dedent, escape_html, process_rst_escapes, slug_of, slugify};
use rst2html::inline::process_inline;
use rst2html::lists::{convert_option_list, strip_bullet_marker, strip_enumerated_marker};
use rst2html::options::Options;
use rst2html::parser::{classify_line, parse_directive_options, LineType};
use rst2html::roles::render_role;
use rst2html::state::get_or_assign_level;
use rst2html::tables::{
    convert_csv_table, convert_grid_table, convert_list_table, convert_simple_table,
};
use rst2html::{convert, convert_at, convert_with_options, ConvertOptions, ConverterState};

fn epoch() -> Moment {
    Moment { secs: 0, nanos: 0, offset: 0 }
}

#[test]
fn plain_text_is_one_escaped_paragraph() {
    assert_eq!(convert("Tom & Jerry"), "<p>Tom &amp; Jerry</p>\n");
    assert_eq!(convert("just words"), "<p>just words</p>\n");
    assert_eq!(convert("a < b > c & d"), "<p>a &lt; b &gt; c &amp; d</p>\n");
    assert_eq!(convert("x<<<<"), "<p>x&lt;&lt;&lt;&lt;</p>\n");
    assert_eq!(convert("x"), "<p>x</p>\n");
}

#[test]
fn empty_and_blank_documents_are_empty() {
    assert_eq!(convert(""), "");
    assert_eq!(convert("   \n\n  "), "");
    assert_eq!(convert_rst_content(""), "");
    assert_eq!(convert_rst_content("   "), "");
}

#[test]
fn heading_levels_follow_first_use() {
    let html = convert("A\n====\n\nB\n----\n\nC\n----\n\nD\n====");
    assert_eq!(
        html,
        "<h1 id=\"a\">A</h1>\n<h2 id=\"b\">B</h2>\n<h2 id=\"c\">C</h2>\n<h1 id=\"d\">D</h1>\n"
    );
}

#[test]
fn second_adornment_is_level_two_wherever_it_is_used() {
    let html = convert("A\n~~~~\n\nB\n====\n\nC\n^^^^\n\nD\n====");
    assert!(html.contains("<h1 id=\"a\">A</h1>"));
    assert!(html.contains("<h2 id=\"b\">B</h2>"));
    assert!(html.contains("<h3 id=\"c\">C</h3>"));
    assert!(html.contains("<h2 id=\"d\">D</h2>"));
}

#[test]
fn levels_are_assigned_in_order() {
    let mut chars: Vec<char> = Vec::new();
    assert_eq!(get_or_assign_level('=', &mut chars), 1);
    assert_eq!(get_or_assign_level('-', &mut chars), 2);
    assert_eq!(get_or_assign_level('=', &mut chars), 1);
    assert_eq!(get_or_assign_level('~', &mut chars), 3);
    assert_eq!(get_or_assign_level('-', &mut chars), 2);
    assert_eq!(chars, vec!['=', '-', '~']);
}

#[test]
fn entities_are_escaped_once() {
    assert_eq!(escape_html("<"), "&lt;");
    assert_eq!(escape_html("&"), "&amp;");
    assert_eq!(escape_html(">"), "&gt;");
    assert_eq!(escape_html("\""), "&quot;");
    assert_eq!(escape_html(""), "");
    assert_eq!(escape_html("a<b>&\"c\""), "a&lt;b&gt;&amp;&quot;c&quot;");
}

#[test]
fn table_cells_keep_entities_from_escapes() {
    let table = "=======  =======\n\\<a\\>     x & y\n=======  =======";
    let html = convert_simple_table(table);
    assert_eq!(
        html,
        "<table class=\"simple-table\">\n<tr><td>&lt;a&gt;</td><td>x &amp; y</td></tr>\n</table>"
    );
    assert!(!html.contains("&amp;lt;"));
}

#[test]
fn missing_joint_spans_two_columns() {
    let table = "+-----+-----+\n| a   | b   |\n+-----------+\n| wide      |\n+-----+-----+";
    let html = convert_grid_table(table);
    assert_eq!(
        html,
        "<table class=\"grid-table\">\n<tr><td>a</td><td>b</td></tr>\n<tr><td colspan=\"2\">wide</td></tr>\n</table>"
    );
    assert_eq!(html.matches("colspan=\"2\"").count(), 1);
}

#[test]
fn covered_cells_are_left_out() {
    let table = "+-----+-----+\n| a   | b   |\n+     +-----+\n| c   | d   |\n+-----+-----+";
    let html = convert_grid_table(table);
    assert_eq!(
        html,
        "<table class=\"grid-table\">\n<tr><td rowspan=\"2\">a</td><td>b</td></tr>\n<tr><td>d</td></tr>\n</table>"
    );
}

#[test]
fn a_cell_is_covered_by_the_span_over_its_column() {
    let table = "+-----+-----+-----+\n| A   | B   | C   |\n+-----------+-----+\n| X         | Y   |\n+-----+-----+     +\n| P   | Q   |     |\n+-----+-----+-----+";
    let html = convert_grid_table(table);
    assert!(html.contains("<td colspan=\"2\">X</td><td rowspan=\"2\">Y</td>"));
    assert!(html.contains("<tr><td>P</td><td>Q</td></tr>"));
    assert_eq!(
        html,
        "<table class=\"grid-table\">\n<tr><td>A</td><td>B</td><td>C</td></tr>\n<tr><td colspan=\"2\">X</td><td rowspan=\"2\">Y</td></tr>\n<tr><td>P</td><td>Q</td></tr>\n</table>"
    );
}

#[test]
fn a_span_covers_the_cell_behind_a_wide_cell() {
    let table = "+---+---+---+\n| x | y | z |\n+-------+   +\n| wide  | w |\n+---+---+---+";
    assert_eq!(
        convert_grid_table(table),
        "<table class=\"grid-table\">\n<tr><td>x</td><td>y</td><td rowspan=\"2\">z</td></tr>\n<tr><td colspan=\"2\">wide</td></tr>\n</table>"
    );
    let table = "+---+---+---+\n| a | b | c |\n+   +-------+\n| d | wide  |\n+---+---+---+";
    assert_eq!(
        convert_grid_table(table),
        "<table class=\"grid-table\">\n<tr><td rowspan=\"2\">a</td><td>b</td><td>c</td></tr>\n<tr><td colspan=\"2\">wide</td></tr>\n</table>"
    );
}

#[test]
fn grid_table_with_header() {
    let table = "+---+---+\n| h | i |\n+===+===+\n| 1 | 2 |\n+---+---+";
    assert_eq!(
        convert_grid_table(table),
        "<table class=\"grid-table\">\n<thead>\n<tr><th>h</th><th>i</th></tr>\n</thead>\n<tbody>\n<tr><td>1</td><td>2</td></tr>\n</tbody>\n</table>"
    );
}

#[test]
fn short_blocks_are_escaped_paragraphs() {
    assert_eq!(convert_grid_table("+--+\n| <"), "<p>+--+\n| &lt;</p>");
    assert_eq!(convert_simple_table("== ==\na"), "<p>== ==\na</p>");
}

#[test]
fn scenario_title() {
    assert_eq!(convert("Title\n====="), "<h1 id=\"title\">Title</h1>\n");
}

#[test]
fn scenario_bullets() {
    assert_eq!(convert("- a\n- b"), "<ul>\n<li>a</li>\n<li>b</li>\n</ul>\n");
}

#[test]
fn scenario_note() {
    let html = convert(".. note::\n\n   body");
    assert_eq!(
        html,
        "<div class=\"admonition note\">\n<p class=\"admonition-title\">Note</p>\n<p>body</p>\n\n</div>\n"
    );
}

#[test]
fn scenario_backslash_space() {
    assert_eq!(process_inline("H\\ :sub:`2`\\ O"), "H<sub>2</sub>O");
    assert_eq!(convert("H\\ :sub:`2`\\ O"), "<p>H<sub>2</sub>O</p>\n");
}

#[test]
fn scenario_unterminated_bold() {
    assert_eq!(process_inline("**bold"), "**bold");
    assert_eq!(convert("**bold"), "<p>**bold</p>\n");
    assert_eq!(process_inline("*it"), "*it");
    assert_eq!(process_inline("``code"), "``code");
    assert_eq!(process_inline(":role:`x"), ":role:`x");
}

#[test]
fn inline_spans() {
    assert_eq!(process_inline("a **b** c"), "a <strong>b</strong> c");
    assert_eq!(process_inline("a *b* c"), "a <em>b</em> c");
    assert_eq!(process_inline("***x***"), "<strong><em>x</em></strong>");
    assert_eq!(process_inline("``<x>``"), "<code>&lt;x&gt;</code>");
    assert_eq!(process_inline("**a *b* c**"), "<strong>a <em>b</em> c</strong>");
    assert_eq!(process_inline("x*y*"), "x*y*");
    assert_eq!(process_inline("`t <u>`_"), "<a href=\"u\">t</a>");
    assert_eq!(process_inline("`t <u>`__ z"), "<a href=\"u\">t</a> z");
    assert_eq!(process_inline("|name|"), "|name|");
    assert_eq!(process_inline("a|b"), "a|b");
    assert_eq!(process_inline("\\q"), "\\q");
    assert_eq!(process_inline("\\"), "\\");
    assert_eq!(process_inline("\\_\\<\\>"), "_&lt;&gt;");
}

#[test]
fn escapes_are_read() {
    assert_eq!(process_rst_escapes("a\\ b"), "ab");
    assert_eq!(process_rst_escapes("\\q"), "\\q");
    assert_eq!(process_rst_escapes("x\\"), "x\\");
    assert_eq!(process_rst_escapes("\\|\\~"), "|~");
}

#[test]
fn slugs() {
    assert_eq!(slugify("Hello, World!"), "hello-world");
    assert_eq!(slugify("a  --  b"), "a-b");
    assert_eq!(slugify("trailing - "), "trailing");
    assert_eq!(slugify(" leading"), "leading");
    assert_eq!(slugify("\u{c4}rger \u{dc}ber"), "\u{e4}rger-\u{fc}ber");
    assert_eq!(slugify("\u{e9}\u{2014}\u{e8}"), "\u{e9}\u{e8}");
    assert_eq!(slugify(""), "");
    let lower: Vec<char> = "a_b c".chars().collect();
    let slug: String = slug_of(&lower).into_iter().collect();
    assert_eq!(slug, "a-b-c");
}

#[test]
fn dedenting() {
    assert_eq!(dedent(""), "");
    assert_eq!(dedent("  a\n\n  b"), "a\n\nb");
    assert_eq!(dedent("    a\n  b\n"), "  a\nb");
    assert_eq!(dedent("a\n"), "a\n");
    assert_eq!(dedent("  a\r\n  b"), "a\nb");
}

#[test]
fn roles_with_targets() {
    assert_eq!(
        render_role("doc", "page.html"),
        "<a href=\"page.html.html\" class=\"reference internal\">page.html</a>"
    );
    assert_eq!(
        render_role("doc", "Shown <page.html>"),
        "<a href=\"page.html\" class=\"reference internal\">Shown</a>"
    );
    assert_eq!(
        render_role("ref", " <x>"),
        "<a href=\"# &lt;x&gt;\" class=\"reference internal\"> &lt;x&gt;</a>"
    );
    assert_eq!(render_role("abbr", "(x)"), "<abbr title=\"x\"></abbr>");
}

#[test]
fn line_kinds() {
    assert_eq!(classify_line("::"), LineType::LiteralBlockMarker);
    assert_eq!(classify_line("|"), LineType::LineBlockLine);
    assert_eq!(classify_line("+---+"), LineType::GridTableLine);
    assert_eq!(classify_line("| a |"), LineType::LineBlockLine);
    assert_eq!(classify_line("|a|"), LineType::GridTableLine);
    assert_eq!(classify_line("== =="), LineType::SimpleTableBorder);
    assert_eq!(classify_line("==="), LineType::TextLine);
    assert_eq!(classify_line(".. a comment"), LineType::Comment);
    assert_eq!(
        classify_line(".. |n| image:: a.png"),
        LineType::SubstitutionDef("n".to_string(), "image".to_string(), "a.png".to_string())
    );
    assert_eq!(
        classify_line(".. _name: http://x"),
        LineType::Target("name".to_string(), "http://x".to_string())
    );
    assert_eq!(
        classify_line(".. _name:"),
        LineType::Target("name".to_string(), String::new())
    );
    assert_eq!(
        classify_line(":field: body"),
        LineType::FieldListItem("field".to_string(), "body".to_string())
    );
    assert_eq!(
        classify_line("  :opt: v"),
        LineType::FieldListItem("opt".to_string(), "v".to_string())
    );
    assert_eq!(
        classify_line("  ::x: v"),
        LineType::DirectiveOption(String::new(), "x: v".to_string())
    );
    assert_eq!(classify_line("3. x"), LineType::EnumeratedListItem("3.".to_string()));
    assert_eq!(classify_line("(iv) x"), LineType::EnumeratedListItem("(iv)".to_string()));
    assert_eq!(classify_line("#) x"), LineType::EnumeratedListItem("#)".to_string()));
    assert_eq!(classify_line("ab. x"), LineType::TextLine);
    assert_eq!(classify_line("() x"), LineType::TextLine);
    assert_eq!(classify_line("   text"), LineType::IndentedLine(3));
    assert_eq!(classify_line("- "), LineType::TextLine);
    assert_eq!(classify_line("text"), LineType::TextLine);
}

#[test]
fn directive_options_are_read() {
    let (options, read) = parse_directive_options(&["  :a: 1", ":b: 2", "", ":c: 3"]);
    assert_eq!(read, 2);
    assert_eq!(options.get("a"), Some("1".to_string()));
    assert_eq!(options.get("b"), Some("2".to_string()));
    assert_eq!(options.get("c"), None);
    assert!(options.contains_key("a"));
    assert!(!options.contains_key("c"));
    let (none, read) = parse_directive_options(&["text"]);
    assert_eq!(read, 0);
    assert!(!none.contains_key("text"));
}

#[test]
fn last_option_value_counts() {
    let mut options = Options::new();
    options.insert("k".to_string(), "1".to_string());
    options.insert("j".to_string(), "x".to_string());
    options.insert("k".to_string(), "2".to_string());
    assert_eq!(options.get("k"), Some("2".to_string()));
    assert_eq!(options.get("j"), Some("x".to_string()));
    assert_eq!(options.copy().get("k"), Some("2".to_string()));
}

#[test]
fn markers_are_stripped() {
    assert_eq!(strip_bullet_marker("  - x"), "x");
    assert_eq!(strip_bullet_marker("-"), "");
    assert_eq!(strip_enumerated_marker("(x) y"), "y");
    assert_eq!(strip_enumerated_marker("ab. y"), "ab. y");
    assert_eq!(strip_enumerated_marker("II) y"), "y");
}

#[test]
fn option_list_rows() {
    assert_eq!(
        convert_option_list("-a  first\n    more\n-b", 7, true),
        "<dl class=\"option-list\" data-line=\"7\">\n<dt><code>-a</code></dt>\n<dd>first more</dd>\n<dt><code>-b</code></dt>\n<dd></dd>\n</dl>"
    );
    assert_eq!(
        convert("-a  first\n-b  second"),
        "<dl class=\"option-list\">\n<dt><code>-a</code></dt>\n<dd>first</dd>\n<dt><code>-b</code></dt>\n<dd>second</dd>\n</dl>\n"
    );
}

#[test]
fn widths_are_shares_of_the_sum() {
    let html = convert_csv_table("", None, Some("20, 10, 20"), None, "a,b,c");
    assert_eq!(
        html,
        "<table class=\"csv-table\">\n<colgroup>\n<col style=\"width: 40.0%\">\n<col style=\"width: 20.0%\">\n<col style=\"width: 40.0%\">\n</colgroup>\n<tbody>\n<tr><td>a</td><td>b</td><td>c</td></tr>\n</tbody>\n</table>"
    );
    let html = convert_list_table("T", 0, 0, Some("1 2"), Some("left"), "* - a\n  - b");
    assert_eq!(
        html,
        "<table class=\"list-table\" style=\"margin-right: auto;\">\n<caption>T</caption>\n<colgroup>\n<col style=\"width: 33.3%\">\n<col style=\"width: 66.7%\">\n</colgroup>\n<tr><td>a</td><td>b</td></tr>\n</table>"
    );
    let html = convert_csv_table("", None, Some("1,15,3"), None, "");
    assert_eq!(
        html,
        "<table class=\"csv-table\">\n<colgroup>\n<col style=\"width: 5.3%\">\n<col style=\"width: 78.9%\">\n<col style=\"width: 15.8%\">\n</colgroup>\n<tbody>\n</tbody>\n</table>"
    );
    let html = convert_csv_table("", None, Some("1, 15"), None, "");
    assert_eq!(
        html,
        "<table class=\"csv-table\">\n<colgroup>\n<col style=\"width: 6.2%\">\n<col style=\"width: 93.8%\">\n</colgroup>\n<tbody>\n</tbody>\n</table>"
    );
    let html = convert_csv_table("", None, Some("0, x"), None, "");
    assert_eq!(
        html,
        "<table class=\"csv-table\">\n<colgroup>\n</colgroup>\n<tbody>\n</tbody>\n</table>"
    );
}

#[test]
fn csv_quotes_keep_commas() {
    let html = convert_csv_table("", Some("\"a, b\", c"), None, Some("center"), "1, \"2, 3\"\n\n4");
    assert_eq!(
        html,
        "<table class=\"csv-table\" style=\"margin-left: auto; margin-right: auto;\">\n<thead>\n<tr><th>a, b</th><th>c</th></tr>\n</thead>\n<tbody>\n<tr><td>1</td><td>2, 3</td></tr>\n<tr><td>4</td></tr>\n</tbody>\n</table>"
    );
}

#[test]
fn list_table_headers_and_stubs() {
    let html = convert_list_table("", 1, 1, None, None, "* - h1\n  - h2\n* - a\n  - b\n    c");
    assert_eq!(
        html,
        "<table class=\"list-table\">\n<thead>\n<tr><th class=\"stub\">h1</th><th>h2</th></tr>\n</thead>\n<tbody>\n<tr><th class=\"stub\">a</th><td>b c</td></tr>\n</tbody>\n</table>"
    );
}

#[test]
fn simple_table_with_header() {
    let table = "== ==\nh  i\n== ==\n1  2\n== ==";
    assert_eq!(
        convert_simple_table(table),
        "<table class=\"simple-table\">\n<thead>\n<tr><th>h</th><th>i</th></tr>\n</thead>\n<tbody>\n<tr><td>1</td><td>2</td></tr>\n</tbody>\n</table>"
    );
}

#[test]
fn simple_table_border_with_other_values() {
    let html = convert_simple_table("=== x ===\na     b\nc     d");
    assert_eq!(
        html,
        "<table class=\"simple-table\">\n<tr><td>===</td><td>===</td></tr>\n<tr><td>a</td><td>b</td></tr>\n<tr><td>c</td><td>d</td></tr>\n</table>"
    );
}

#[test]
fn links_in_cells() {
    let table = "=================  ==\nhttp://a.b/?x&y    z\n=================  ==";
    assert_eq!(
        convert_simple_table(table),
        "<table class=\"simple-table\">\n<tr><td><a href=\"http://a.b/?x&amp;y\">http://a.b/?x&amp;y</a></td><td>z</td></tr>\n</table>"
    );
}

#[test]
fn section_numbers() {
    let html = convert(".. sectnum::\n   :prefix: (\n   :suffix: )\n\nA\n====\n\nB\n----\n\nC\n----\n\nD\n====");
    assert_eq!(
        html,
        "<h1 id=\"a\">(1) A</h1>\n<h2 id=\"b\">(1.1) B</h2>\n<h2 id=\"c\">(1.2) C</h2>\n<h1 id=\"d\">(2) D</h1>\n"
    );
    let html = convert(".. sectnum::\n   :depth: 1\n\nA\n====\n\nB\n----");
    assert_eq!(html, "<h1 id=\"a\">1 A</h1>\n<h2 id=\"b\">B</h2>\n");
    let html = convert(".. sectnum::\n   :depth: deep\n\nA\n====");
    assert_eq!(html, "<h1 id=\"a\">1 A</h1>\n");
}

#[test]
fn deep_levels_are_numbered_without_failing() {
    let html = convert(
        ".. sectnum::\n   :depth: 9\n\nA\n====\n\nB\n----\n\nC\n~~~~\n\nD\n^^^^\n\nE\n++++\n\nF\n####\n\nG\n****\n\nH\n<<<<",
    );
    assert!(html.contains("<h7 id=\"g\">1.1.1.1.1.1.1 G</h7>"));
    assert!(html.contains("<h8 id=\"h\">1.1.1.1.1.1.1.1 H</h8>"));
}

#[test]
fn overlined_title() {
    assert_eq!(convert("=====\nTitle\n====="), "<h1 id=\"title\">Title</h1>\n");
    assert_eq!(
        convert(".. sectnum::\n\n=====\nTitle\n====="),
        "<h1 id=\"title\">1 Title</h1>\n"
    );
    assert_eq!(
        convert("====\nLong title\n===="),
        "<p>====</p>\n<p>Long title</p>\n<p>====</p>\n"
    );
}

#[test]
fn a_title_ends_the_paragraph_before_it() {
    assert_eq!(
        convert("some text\nTitle\n====="),
        "<p>some text</p>\n<h1 id=\"title\">Title</h1>\n"
    );
}

#[test]
fn brackets_need_an_enumerator() {
    assert_eq!(convert("() x"), "<p>() x</p>\n");
    assert_eq!(convert("(1) x"), "<ol>\n<li>x</li>\n</ol>\n");
}

#[test]
fn two_header_rows() {
    let table = "+---+\n| a |\n+---+\n| b |\n+===+\n| c |\n+---+";
    assert_eq!(
        convert_grid_table(table),
        "<table class=\"grid-table\">\n<thead>\n<tr><th>a</th></tr>\n<tr><th>b</th></tr>\n</thead>\n<tbody>\n<tr><td>c</td></tr>\n</tbody>\n</table>"
    );
}

#[test]
fn short_underline_is_no_title() {
    assert_eq!(convert("Long title\n===="), "<p>Long title</p>\n<p>====</p>\n");
}

#[test]
fn substitutions_are_resolved_at_the_top_only() {
    let html = convert(".. |who| replace:: **me**\n\nIt is |who|.\n\n- item |who|");
    assert_eq!(
        html,
        "<p>It is <strong>me</strong>.</p>\n<ul>\n<li>item <strong>me</strong></li>\n</ul>\n"
    );
    let html = convert(".. |a| replace:: one\n.. |a| replace:: two\n\n|a| |b|");
    assert_eq!(html, "<p>two |b|</p>\n");
    assert_eq!(convert_rst_content(".. |a| replace:: one\n\n|a|"), "<p>|a|</p>\n");
}

#[test]
fn substitution_types() {
    let html = convert(".. |i| image:: a&b.png\n.. |u| unicode:: 0x41 66 x\n.. |o| other:: raw\n\n|i| |u| |o|");
    assert_eq!(html, "<p><img src=\"a&amp;b.png\" alt=\"\"> AB raw</p>\n");
}

#[test]
fn dates_are_written_from_the_moment() {
    let now = epoch();
    assert_eq!(
        convert_at(".. |d| date::\n.. |y| date:: %Y/%m\n\n|d| |y|", &now),
        "<p>1970-01-01 1970/01</p>\n"
    );
    let later = Moment { secs: 86_400 + 3_600, nanos: 0, offset: 7_200 };
    assert_eq!(
        convert_at(".. |t| date:: %Y-%m-%d %H:%M %z\n\n|t|", &later),
        "<p>1970-01-02 03:00 +0200</p>\n"
    );
    assert_eq!(convert_rst_content_at(".. date:: %d.%m.%Y", &now), "01.01.1970\n");
}

#[test]
fn a_format_that_cannot_be_read_is_written_as_it_is() {
    let now = epoch();
    assert_eq!(convert_at(".. |d| date:: %Q\n\n|d|", &now), "<p>%Q</p>\n");
    let far = Moment { secs: i64::MAX, nanos: 0, offset: 0 };
    assert_eq!(convert_at(".. |d| date:: %Y\n\n|d|", &far), "<p>%Y</p>\n");
    let skewed = Moment { secs: 0, nanos: 0, offset: 100_000 };
    assert_eq!(convert_at(".. |d| date::\n\n|d|", &skewed), "<p>%Y-%m-%d</p>\n");
}

#[test]
fn the_clock_gives_a_date() {
    let html = convert(".. |d| date::\n\n|d|");
    assert_eq!(html.len(), "<p>0000-00-00</p>\n".len());
    assert!(html.starts_with("<p>"));
    assert_eq!(&html[7..8], "-");
}

#[test]
fn a_text_without_a_date_is_converted_at_a_fixed_moment() {
    let text = "Title\n=====\n\n- a\n- b\n\n.. note::\n\n   body";
    assert_eq!(convert(text), convert_at(text, &epoch()));
    assert_eq!(convert_rst_content(text), convert_rst_content_at(text, &epoch()));
}

#[test]
fn options_do_not_change_the_result() {
    let options = ConvertOptions { add_data_lines: true };
    assert_eq!(convert_with_options("-a  x\n-b  y", &options), convert("-a  x\n-b  y"));
    assert!(!ConvertOptions::default().add_data_lines);
}

#[test]
fn header_and_footer_frame_the_document() {
    let html = convert(".. header::\n\n   Top *one*\n\n.. footer::\n\n   End\n\n.. header::\n\n   Again\n\nBody");
    assert_eq!(html, "<header>Top <em>one</em></header>\n<p>Body</p>\n<footer>End</footer>\n");
}

#[test]
fn targets_are_listed() {
    let html = convert(".. _a: http://a\n.. _b: http://b?x&y\n\n.. target-notes::");
    assert_eq!(
        html,
        "<div class=\"target-notes\">\n<ol>\n<li><a href=\"http://a\">a</a></li>\n<li><a href=\"http://b?x&amp;y\">b</a></li>\n</ol>\n</div>\n"
    );
}

#[test]
fn contents_list_the_titles_below_the_first_level() {
    let html = convert("A\n====\n\n.. contents::\n\nB\n----\n\nC\n~~~~");
    assert!(html.contains(
        "<div class=\"contents\">\n<p class=\"topic-title\">Contents</p>\n<ul class=\"toc\">\n<li><a href=\"#b\">B</a></li>\n  <li><a href=\"#c\">C</a></li>\n</ul>\n</div>"
    ));
}

#[test]
fn unknown_directives_keep_what_they_hold() {
    let html = convert(".. mystery:: some <args>\n\n   inside");
    assert_eq!(
        html,
        "<div class=\"directive-mystery\">\n<div class=\"directive-arguments\">some &lt;args&gt;</div>\n<div class=\"directive-content\"><p>inside</p>\n</div>\n</div>\n"
    );
}

#[test]
fn directive_kinds() {
    let mut state = ConverterState::new();
    let render = |name: &str, args: &str, content: &str, state: &mut ConverterState| {
        let info = DirectiveInfo {
            name,
            arguments: args,
            options: Options::new(),
            content: content.to_string(),
        };
        render_directive(&info, state)
    };
    assert_eq!(render("include", "a<b", "", &mut state), "<p class=\"include\">Include: a&lt;b</p>");
    assert_eq!(render("raw", "html", "<b>x</b>", &mut state), "<b>x</b>");
    assert_eq!(render("raw", "latex", "a<b", &mut state), "<!-- Latex: a&lt;b -->");
    assert_eq!(render("raw", "\u{e9}lan", "x", &mut state), "<!-- \u{c9}lan: x -->");
    assert_eq!(render("raw", "\u{df}", "x", &mut state), "<!-- SS: x -->");
    assert_eq!(render("meta", "", "k", &mut state), "<!-- meta: k -->");
    assert_eq!(render("role", "x", "y", &mut state), "");
    assert_eq!(render("sectnum", "", "", &mut state), "");
    assert_eq!(render("target-notes", "", "", &mut state), "");
    assert_eq!(render("rubric", " *t* ", "", &mut state), "<p class=\"rubric\"><em>t</em></p>");
    assert_eq!(
        render("math", "", " a<b ", &mut state),
        "<div class=\"math-block\">\na&lt;b\n</div>"
    );
    assert_eq!(render("doctest", "group", ">>> 1", &mut state), "");
    assert_eq!(
        render("testoutput", "", "  1\n  2", &mut state),
        "<pre class=\"testoutput\"><samp>1\n2</samp></pre>"
    );
    assert_eq!(render("unicode", "0x41 zz 0xZZ 0x110000 55296", "", &mut state), "Azz");
    assert_eq!(render("replace", "**x**", "", &mut state), "<strong>x</strong>");
    assert_eq!(
        render("epigraph", "", "quote", &mut state),
        "<blockquote class=\"epigraph\">\n<p>quote</p>\n\n</blockquote>"
    );
    assert_eq!(
        render("productionlist", "", "a: `b` c\nx\nd: `e", &mut state),
        "<pre class=\"productionlist\">\n<strong id=\"grammar-token-a\">a</strong> ::= <a href=\"#grammar-token-b\" class=\"production-ref\">b</a> c\n<strong id=\"grammar-token-d\">d</strong> ::= \n</pre>"
    );
    assert_eq!(
        render("toctree", "", "intro\n:maxdepth: 2\n\nusage", &mut state),
        "<nav class=\"toctree-wrapper\">\n<ul>\n<li><a href=\"intro.html\">intro</a></li>\n<li><a href=\"usage.html\">usage</a></li>\n</ul>\n</nav>"
    );
    assert_eq!(
        render("figure", "f.png", "Cap\n\nLegend", &mut state),
        "<figure class=\"figure\">\n<img src=\"f.png\">\n<figcaption>Cap</figcaption>\n<div class=\"legend\"><p>Legend</p>\n</div>\n</figure>"
    );
}

#[test]
fn glossary_is_sorted_without_regard_to_case() {
    let mut options = Options::new();
    options.insert("sorted".to_string(), String::new());
    let info = DirectiveInfo {
        name: "glossary",
        arguments: "",
        options,
        content: "beta\n   two\n\nAlpha\nalso\n   one\n\nalpha\n   three".to_string(),
    };
    let mut state = ConverterState::new();
    assert_eq!(
        render_directive(&info, &mut state),
        "<dl class=\"glossary\">\n<dt id=\"term-alpha\">Alpha</dt>\n<dt id=\"term-also\">also</dt>\n<dd>one</dd>\n<dt id=\"term-alpha\">alpha</dt>\n<dd>three</dd>\n<dt id=\"term-beta\">beta</dt>\n<dd>two</dd>\n</dl>"
    );
}

#[test]
fn nested_lists_and_fields() {
    assert_eq!(
        convert("- a\n  more\n\n  - b\n  - c\n- d"),
        "<ul>\n<li>a more\n<ul>\n<li>b</li>\n<li>c</li>\n</ul>\n</li>\n<li>d</li>\n</ul>\n"
    );
    assert_eq!(
        convert("1. one\n2. two"),
        "<ol>\n<li>one</li>\n<li>two</li>\n</ol>\n"
    );
    assert_eq!(
        convert(":a: x\n   y\n:b:"),
        "<dl>\n<dt>a</dt>\n<dd><p>x y</p>\n</dd>\n<dt>b</dt>\n<dd></dd>\n</dl>\n"
    );
    assert_eq!(
        convert("term : kind\n   meaning\n   more"),
        "<dl>\n<dt>term <span class=\"classifier\">kind</span></dt>\n<dd>meaning more</dd>\n</dl>\n"
    );
}

#[test]
fn directives_in_list_items_are_rendered() {
    assert_eq!(
        convert("- a\n  .. note::\n\n     inner\n- b"),
        "<ul>\n<li>a\n<div class=\"admonition note\">\n<p class=\"admonition-title\">Note</p>\n<p>inner</p>\n\n</div>\n</li>\n<li>b</li>\n</ul>\n"
    );
}

#[test]
fn literal_and_line_blocks() {
    assert_eq!(
        convert("Look::\n\n   a <b>\n     c"),
        "<p>Look:</p>\n<pre class=\"nohighlight\"><code>a &lt;b&gt;\n  c</code></pre>\n"
    );
    assert_eq!(
        convert("| one\n|   two\n|\n| three"),
        "<div class=\"line-block\">\n<div class=\"line\">one</div>\n<div class=\"line\" style=\"margin-left: 2em\">two</div>\n<div class=\"line\"><br></div>\n<div class=\"line\">three</div>\n</div>\n"
    );
    assert_eq!(
        convert(">>> 1 < 2\nTrue"),
        "<pre class=\"doctest\"><code class=\"language-python\">&gt;&gt;&gt; 1 &lt; 2\nTrue</code></pre>\n"
    );
    assert_eq!(convert("a\n\n----\n\nb"), "<p>a</p>\n<hr>\n<p>b</p>\n");
}

#[test]
fn comments_and_targets_leave_no_trace() {
    assert_eq!(convert(".. a comment\n   that goes on\n\ntext"), "<p>text</p>\n");
    assert_eq!(convert(".. _t: http://x\n\ntext"), "<p>text</p>\n");
}

#[test]
fn deep_nesting_ends_in_a_paragraph() {
    let mut text = String::new();
    for level in 0..130 {
        for _ in 0..level {
            text.push_str("   ");
        }
        text.push_str(".. compound::\n\n");
    }
    for _ in 0..130 {
        text.push_str("   ");
    }
    text.push_str("core <x>\n");
    let html = convert(&text);
    assert_eq!(html.matches("<div class=\"compound\">").count(), 101);
    assert!(html.contains("<p>.. compound::"));
    assert!(html.contains("core &lt;x&gt;"));
    assert!(!html.contains("core <x>"));
}

#[test]
fn carriage_returns_end_lines() {
    assert_eq!(convert("- a\r\n- b\r\n"), "<ul>\n<li>a</li>\n<li>b</li>\n</ul>\n");
}
