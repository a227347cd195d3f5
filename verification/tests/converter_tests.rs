use rst2html::convert;

#[test]
fn converter_test_simple_paragraph() {
    let html = convert("This is a simple paragraph.");
    assert!(html.contains("<p>This is a simple paragraph.</p>"));
}

#[test]
fn converter_test_bold_text() {
    let html = convert("This has **bold** text.");
    assert!(html.contains("<strong>bold</strong>"));
}

#[test]
fn converter_test_italic_text() {
    let html = convert("This has *italic* text.");
    assert!(html.contains("<em>italic</em>"));
}

#[test]
fn converter_test_inline_code() {
    let html = convert("This has ``inline code`` in it.");
    assert!(html.contains("<code>inline code</code>"));
}

#[test]
fn converter_test_section_header() {
    let html = convert("Title\n=====");
    assert!(html.contains("<h1"));
    assert!(html.contains("Title"));
    assert!(html.contains("</h1>"));
}

#[test]
fn converter_test_multiple_section_levels() {
    let html = convert("Title\n=====\n\nSubtitle\n--------\n\nSubSubtitle\n~~~~~~~~~~~");
    assert!(html.contains("<h1"));
    assert!(html.contains("<h2"));
    assert!(html.contains("<h3"));
}

#[test]
fn converter_test_bullet_list() {
    let html = convert("- Item 1\n- Item 2\n- Item 3");
    assert!(html.contains("<ul>"));
    assert!(html.contains("<li>"));
    assert!(html.contains("</ul>"));
}

#[test]
fn converter_test_enumerated_list() {
    let html = convert("1. First\n2. Second\n3. Third");
    assert!(html.contains("<ol>"));
    assert!(html.contains("<li>"));
    assert!(html.contains("</ol>"));
}

#[test]
fn test_transition_dashes() {
    let html = convert("Some text before.\n\n----\n\nSome text after.");
    assert!(html.contains("<hr"));
}

#[test]
fn test_transition_equals() {
    let html = convert("Before.\n\n====\n\nAfter.");
    assert!(html.contains("<hr"));
}

#[test]
fn test_three_chars_not_transition() {
    let html = convert("Before.\n\n---\n\nAfter.");
    assert!(!html.contains("<hr"));
}

#[test]
fn converter_test_literal_block() {
    let html = convert("Example::\n\n    This is literal\n    text here");
    assert!(html.contains("<pre"));
    assert!(html.contains("nohighlight"));
    assert!(html.contains("This is literal"));
}

#[test]
fn test_standalone_double_colon() {
    let html = convert("The double colon:\n\n::\n\n    Another literal block.");
    assert!(html.contains("<pre"));
    assert!(html.contains("Another literal block"));
    assert!(!html.contains("<p>::</p>"));
}

#[test]
fn converter_test_code_block_directive() {
    let html = convert(".. code-block:: python\n\n   print(\"Hello\")");
    assert!(html.contains("<pre"));
    assert!(html.contains("<code"));
    assert!(html.contains("language-python"));
}

#[test]
fn converter_test_note_admonition() {
    let html = convert(".. note::\n\n   This is a note.");
    assert!(html.contains("admonition"));
    assert!(html.contains("note"));
}

#[test]
fn converter_test_warning_admonition() {
    let html = convert(".. warning::\n\n   This is a warning.");
    assert!(html.contains("admonition"));
    assert!(html.contains("warning"));
}

#[test]
fn converter_test_escaped_html() {
    let html = convert("Use <script> and & characters safely.");
    assert!(html.contains("&lt;script&gt;"));
    assert!(html.contains("&amp;"));
}

#[test]
fn converter_test_external_link() {
    let html = convert("Visit `Example <https://example.com>`_ for more.");
    assert!(html.contains("<a"));
    assert!(html.contains("https://example.com"));
}

#[test]
fn converter_test_ref_role() {
    let html = convert("See :ref:`my-label` for details.");
    assert!(html.contains("<a"));
    assert!(html.contains("href=\"#my-label\""));
}

#[test]
fn converter_test_doc_role() {
    let html = convert("See :doc:`other-doc` for details.");
    assert!(html.contains("<a"));
    assert!(html.contains("other-doc.html"));
}

#[test]
fn test_image_directive() {
    let html = convert(".. image:: /path/to/image.png\n   :alt: Alt text");
    assert!(html.contains("<img"));
    assert!(html.contains("src=\"/path/to/image.png\""));
}

#[test]
fn test_figure_directive() {
    let html = convert(".. figure:: /path/to/figure.png\n   :alt: Figure alt\n\n   This is the caption.");
    assert!(html.contains("<figure"));
    assert!(html.contains("<figcaption>"));
}

#[test]
fn converter_test_field_list() {
    let html = convert(":Author: John Doe\n:Version: 1.0");
    assert!(html.contains("<dl"));
    assert!(html.contains("<dt>"));
    assert!(html.contains("<dd>"));
}

#[test]
fn test_doctest_block() {
    let html = convert("Some text.\n\n>>> some_function()\n'result'\n\nMore text.");
    assert!(html.contains("doctest"));
    assert!(html.contains("some_function()"));
}
