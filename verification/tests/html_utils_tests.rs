use rst2html::html_utils::{dedent, escape_html, process_rst_escapes, slugify};

#[test]
fn test_escape_html() {
    assert_eq!(escape_html("hello"), "hello");
    assert_eq!(escape_html("<script>"), "&lt;script&gt;");
    assert_eq!(escape_html("a & b"), "a &amp; b");
    assert_eq!(escape_html("\"quote\""), "&quot;quote&quot;");
}

#[test]
fn test_process_rst_escapes_backslash_space() {
    assert_eq!(process_rst_escapes("H\\ O"), "HO");
}

#[test]
fn test_process_rst_escapes_double_backslash() {
    assert_eq!(process_rst_escapes("a \\\\ b"), "a \\ b");
}

#[test]
fn test_process_rst_escapes_asterisk() {
    assert_eq!(process_rst_escapes("\\*not italic\\*"), "*not italic*");
}

#[test]
fn test_process_rst_escapes_backtick() {
    assert_eq!(
        process_rst_escapes("\\`\\`not code\\`\\`"),
        "``not code``"
    );
}

#[test]
fn test_process_rst_escapes_angle_brackets() {
    assert_eq!(process_rst_escapes("\\< \\>"), "&lt; &gt;");
}

#[test]
fn test_slugify() {
    assert_eq!(slugify("Hello World"), "hello-world");
    assert_eq!(slugify("Section 1.1"), "section-11");
    assert_eq!(slugify("RST"), "rst");
}

#[test]
fn test_dedent() {
    assert_eq!(dedent("   a\n   b"), "a\nb");
    assert_eq!(dedent("  a\n    b"), "a\n  b");
    assert_eq!(dedent("a\nb"), "a\nb");
}
