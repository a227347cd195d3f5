use rst2html::directives::{render_directive, DirectiveInfo};
use rst2html::options::Options;
use rst2html::ConverterState;

fn make_info<'a>(
    name: &'a str,
    arguments: &'a str,
    options: Options,
    content: &str,
) -> DirectiveInfo<'a> {
    DirectiveInfo {
        name,
        arguments,
        options,
        content: content.to_string(),
    }
}

fn empty_opts() -> Options {
    Options::new()
}

#[test]
fn test_render_code_block() {
    let mut state = ConverterState::new();
    let info = make_info("code-block", "python", empty_opts(), "print('hello')");
    let html = render_directive(&info, &mut state);
    assert!(html.contains("<pre"));
    assert!(html.contains("<code"));
    assert!(html.contains("language-python"));
    assert!(html.contains("print(&#x27;hello&#x27;)") || html.contains("print('hello')"));
}

#[test]
fn test_render_note() {
    let mut state = ConverterState::new();
    let info = make_info("note", "", empty_opts(), "This is a note.");
    let html = render_directive(&info, &mut state);
    assert!(html.contains("admonition"));
    assert!(html.contains("note"));
    assert!(html.contains("Note"));
}

#[test]
fn test_render_warning() {
    let mut state = ConverterState::new();
    let info = make_info("warning", "", empty_opts(), "Be careful!");
    let html = render_directive(&info, &mut state);
    assert!(html.contains("warning"));
    assert!(html.contains("Warning"));
}

#[test]
fn test_render_image() {
    let mut state = ConverterState::new();
    let info = make_info("image", "/path/to/image.png", empty_opts(), "");
    let html = render_directive(&info, &mut state);
    assert!(html.contains("<img"));
    assert!(html.contains("src=\"/path/to/image.png\""));
}

#[test]
fn test_render_figure() {
    let mut state = ConverterState::new();
    let info = make_info(
        "figure",
        "/path/to/figure.png",
        empty_opts(),
        "This is the caption",
    );
    let html = render_directive(&info, &mut state);
    assert!(html.contains("<figure"));
    assert!(html.contains("<figcaption>"));
    assert!(html.contains("This is the caption"));
}

#[test]
fn test_render_seealso() {
    let mut state = ConverterState::new();
    let info = make_info("seealso", "", empty_opts(), "Check docs");
    let html = render_directive(&info, &mut state);
    assert!(html.contains("seealso"));
    assert!(html.contains("See Also"));
}

#[test]
fn test_render_versionadded() {
    let mut state = ConverterState::new();
    let info = make_info("versionadded", "2.0", empty_opts(), "New feature");
    let html = render_directive(&info, &mut state);
    assert!(html.contains("versionadded"));
    assert!(html.contains("2.0"));
    assert!(html.contains("New in version"));
}

#[test]
fn test_render_deprecated() {
    let mut state = ConverterState::new();
    let info = make_info("deprecated", "4.0", empty_opts(), "Use X instead");
    let html = render_directive(&info, &mut state);
    assert!(html.contains("deprecated"));
    assert!(html.contains("Deprecated since version"));
}

#[test]
fn test_render_unicode_hex() {
    let mut state = ConverterState::new();
    let info = make_info("unicode", "0xA9", empty_opts(), "");
    let html = render_directive(&info, &mut state);
    assert_eq!(html, "\u{A9}");
}

#[test]
fn test_render_unicode_decimal() {
    let mut state = ConverterState::new();
    let info = make_info("unicode", "169", empty_opts(), "");
    let html = render_directive(&info, &mut state);
    assert_eq!(html, "\u{A9}");
}

#[test]
fn test_render_unicode_multiple() {
    let mut state = ConverterState::new();
    let info = make_info("unicode", "0x41 0x42 0x43", empty_opts(), "");
    let html = render_directive(&info, &mut state);
    assert_eq!(html, "ABC");
}

#[test]
fn test_render_date_default() {
    let mut state = ConverterState::new();
    let info = make_info("date", "", empty_opts(), "");
    let html = render_directive(&info, &mut state);
    // Should match YYYY-MM-DD pattern
    assert!(html.len() == 10);
    assert!(html.chars().nth(4) == Some('-'));
}

#[test]
fn test_render_unknown() {
    let mut state = ConverterState::new();
    let info = make_info("custom-directive", "arg", empty_opts(), "Content");
    let html = render_directive(&info, &mut state);
    assert!(html.contains("directive-custom-directive"));
    assert!(html.contains("directive-arguments"));
    assert!(html.contains("directive-content"));
}

#[test]
fn test_render_glossary() {
    let mut state = ConverterState::new();
    let info = make_info(
        "glossary",
        "",
        empty_opts(),
        "RST\n   A plaintext markup language.",
    );
    let html = render_directive(&info, &mut state);
    assert!(html.contains("glossary"));
    assert!(html.contains("id=\"term-rst\""));
    assert!(html.contains("plaintext markup language"));
}

#[test]
fn test_render_glossary_sorted() {
    let mut state = ConverterState::new();
    let mut opts = Options::new();
    opts.insert("sorted".to_string(), String::new());
    let info = make_info(
        "glossary",
        "",
        opts,
        "Zebra\n   The last animal.\n\nApple\n   A fruit.",
    );
    let html = render_directive(&info, &mut state);
    let apple_pos = html.find("Apple").unwrap();
    let zebra_pos = html.find("Zebra").unwrap();
    assert!(apple_pos < zebra_pos);
}
