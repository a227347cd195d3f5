use rst2html::parser::{classify_line, LineType};

#[test]
fn test_classify_empty() {
    assert_eq!(classify_line(""), LineType::Empty);
    assert_eq!(classify_line("   "), LineType::Empty);
}

#[test]
fn test_classify_section_adornment() {
    assert_eq!(classify_line("====="), LineType::SectionAdornment('='));
    assert_eq!(classify_line("-----"), LineType::SectionAdornment('-'));
    assert_eq!(classify_line("~~~~~"), LineType::SectionAdornment('~'));
}

#[test]
fn test_classify_bullet_list() {
    assert_eq!(classify_line("- item"), LineType::BulletListItem);
    assert_eq!(classify_line("* item"), LineType::BulletListItem);
    assert_eq!(classify_line("+ item"), LineType::BulletListItem);
}

#[test]
fn test_classify_directive() {
    match classify_line(".. code-block:: python") {
        LineType::DirectiveStart(name, args) => {
            assert_eq!(name, "code-block");
            assert_eq!(args, "python");
        }
        other => panic!("Expected DirectiveStart, got {:?}", other),
    }
}

#[test]
fn test_classify_doctest() {
    assert_eq!(classify_line(">>> print('hello')"), LineType::DoctestBlock);
}

#[test]
fn test_classify_line_block() {
    assert_eq!(classify_line("| John Smith"), LineType::LineBlockLine);
}
