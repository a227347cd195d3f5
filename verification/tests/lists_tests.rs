use rst2html::lists::{
    is_option_line, is_option_list, parse_option_line, strip_bullet_marker,
    strip_enumerated_marker,
};

#[test]
fn test_is_option_line_short() {
    assert!(is_option_line("-a"));
    assert!(is_option_line("-v FILE"));
    assert!(is_option_line("-1"));
}

#[test]
fn test_is_option_line_long() {
    assert!(is_option_line("--verbose"));
    assert!(is_option_line("--output=FILE"));
    assert!(is_option_line("--config FILE"));
}

#[test]
fn test_is_option_line_dos() {
    assert!(is_option_line("/V"));
    assert!(is_option_line("/W:warning"));
}

#[test]
fn test_is_option_line_non_options() {
    assert!(!is_option_line(""));
    assert!(!is_option_line("Some text"));
    assert!(!is_option_line("-"));
    assert!(!is_option_line("- item"));
    assert!(!is_option_line("--"));
}

#[test]
fn test_is_option_list_true() {
    let text = "-a            Simple short option.\n-b FILE       Short option with argument.";
    assert!(is_option_list(text));
}

#[test]
fn test_is_option_list_false() {
    let text = "- First bullet item\n- Second bullet item";
    assert!(!is_option_list(text));
}

#[test]
fn test_parse_option_line_with_two_spaces() {
    let (option, description) = parse_option_line("-a            Simple short option.");
    assert_eq!(option, "-a");
    assert_eq!(description, "Simple short option.");
}

#[test]
fn test_parse_option_line_no_description() {
    let (option, description) = parse_option_line("--verbose");
    assert_eq!(option, "--verbose");
    assert_eq!(description, "");
}

#[test]
fn test_parse_option_line_with_argument() {
    let (option, description) = parse_option_line("-b FILE       Short option with argument.");
    assert_eq!(option, "-b FILE");
    assert_eq!(description, "Short option with argument.");
}

#[test]
fn test_strip_bullet_marker_dash() {
    assert_eq!(strip_bullet_marker("- Item text"), "Item text");
    assert_eq!(strip_bullet_marker("-Item text"), "Item text");
    assert_eq!(strip_bullet_marker("-  Item text"), " Item text");
}

#[test]
fn test_strip_bullet_marker_asterisk() {
    assert_eq!(strip_bullet_marker("* Item text"), "Item text");
    assert_eq!(strip_bullet_marker("*Item text"), "Item text");
}

#[test]
fn test_strip_bullet_marker_plus() {
    assert_eq!(strip_bullet_marker("+ Item text"), "Item text");
    assert_eq!(strip_bullet_marker("+Item text"), "Item text");
}

#[test]
fn test_strip_bullet_marker_no_marker() {
    assert_eq!(strip_bullet_marker("No marker here"), "No marker here");
}

#[test]
fn test_strip_enumerated_marker_numeric_dot() {
    assert_eq!(strip_enumerated_marker("1. Item text"), "Item text");
    assert_eq!(strip_enumerated_marker("10. Item text"), "Item text");
    assert_eq!(strip_enumerated_marker("123. Item text"), "Item text");
}

#[test]
fn test_strip_enumerated_marker_numeric_paren() {
    assert_eq!(strip_enumerated_marker("1) Item text"), "Item text");
    assert_eq!(strip_enumerated_marker("(1) Item text"), "Item text");
}

#[test]
fn test_strip_enumerated_marker_alpha() {
    assert_eq!(strip_enumerated_marker("a. Item text"), "Item text");
    assert_eq!(strip_enumerated_marker("A. Item text"), "Item text");
    assert_eq!(strip_enumerated_marker("(a) Item text"), "Item text");
}

#[test]
fn test_strip_enumerated_marker_roman() {
    assert_eq!(strip_enumerated_marker("i. Item text"), "Item text");
    assert_eq!(strip_enumerated_marker("iv. Item text"), "Item text");
    assert_eq!(strip_enumerated_marker("(ii) Item text"), "Item text");
}

#[test]
fn test_strip_enumerated_marker_auto_number() {
    assert_eq!(strip_enumerated_marker("#. Item text"), "Item text");
}

#[test]
fn test_strip_enumerated_marker_no_marker() {
    assert_eq!(
        strip_enumerated_marker("No marker here"),
        "No marker here"
    );
}
