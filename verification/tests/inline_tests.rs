use rst2html::inline::process_inline;

#[test]
fn test_bold() {
    assert!(process_inline("This has **bold** text.").contains("<strong>bold</strong>"));
}

#[test]
fn test_italic() {
    assert!(process_inline("This has *italic* text.").contains("<em>italic</em>"));
}

#[test]
fn inline_test_inline_code() {
    assert!(
        process_inline("This has ``inline code`` in it.").contains("<code>inline code</code>")
    );
}

#[test]
fn test_bold_italic() {
    let html = process_inline("This has ***bold italic*** text.");
    assert!(
        html.contains("<strong><em>bold italic</em></strong>")
            || html.contains("<em><strong>bold italic</strong></em>")
    );
}

#[test]
fn test_role() {
    let html = process_inline("See :ref:`my-label` for details.");
    assert!(html.contains("<a"));
    assert!(html.contains("href=\"#my-label\""));
}

#[test]
fn inline_test_escaped_asterisk() {
    let html = process_inline("\\*not italic\\*");
    assert!(html.contains("*not italic*"));
    assert!(!html.contains("<em>"));
}

#[test]
fn inline_test_backslash_space_removal() {
    let html = process_inline("H\\ :subscript:`2`\\ O is water.");
    assert!(html.contains("H<sub>2</sub>O"));
}

#[test]
fn inline_test_double_backslash() {
    let html = process_inline("Use \\\\ for a literal backslash.");
    assert!(html.contains("Use \\ for"));
}

#[test]
fn inline_test_mixed_escapes_and_markup() {
    let html = process_inline("This is *italic* but \\*this\\* is not.");
    assert!(html.contains("<em>italic</em>"));
    assert!(html.contains("*this*"));
}

#[test]
fn inline_test_external_link() {
    let html = process_inline("Visit `Example <https://example.com>`_ for more.");
    assert!(html.contains("<a"));
    assert!(html.contains("https://example.com"));
}

#[test]
fn test_html_escaping() {
    let html = process_inline("Use <script> and & characters safely.");
    assert!(html.contains("&lt;script&gt;"));
    assert!(html.contains("&amp;"));
}

#[test]
fn inline_test_escaped_angle_brackets() {
    let html = process_inline("Angle brackets: \\< \\>");
    assert!(html.contains("&lt; &gt;"));
    assert!(!html.contains("&amp;lt;"));
}
