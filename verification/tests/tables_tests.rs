use rst2html::tables::data::parse_csv_line;
use rst2html::tables::{
    convert_grid_table, convert_simple_table, is_grid_table, is_simple_table,
};

#[test]
fn test_is_simple_table() {
    let table = "=====  =====\nA      B\n=====  =====";
    assert!(is_simple_table(table));
}

#[test]
fn test_is_simple_table_too_few_lines() {
    let table = "=====  =====\nA      B";
    assert!(!is_simple_table(table));
}

#[test]
fn test_is_simple_table_no_borders() {
    let table = "A      B\nC      D\nE      F";
    assert!(!is_simple_table(table));
}

#[test]
fn test_is_simple_table_empty() {
    assert!(!is_simple_table(""));
}

#[test]
fn test_convert_simple_table_basic() {
    let table = "=====  =====\nA      B\n=====  =====";
    let html = convert_simple_table(table);
    assert!(html.contains("<table"));
    assert!(html.contains("simple-table"));
    assert!(html.contains(">A<"));
    assert!(html.contains(">B<"));
}

#[test]
fn test_convert_simple_table_with_header() {
    let table = "=====  =====\nCol1   Col2\n=====  =====\nA      B\nC      D\n=====  =====";
    let html = convert_simple_table(table);
    assert!(html.contains("<thead>"));
    assert!(html.contains("<th>"));
    assert!(html.contains("<tbody>"));
    assert!(html.contains("<td>"));
}

#[test]
fn test_is_grid_table() {
    let table = "+------+------+\n| A    | B    |\n+======+======+\n| 1    | 2    |\n+------+------+";
    assert!(is_grid_table(table));
}

#[test]
fn test_is_grid_table_invalid() {
    assert!(!is_grid_table("This is not a table\nJust some text"));
}

#[test]
fn test_convert_grid_table_basic() {
    let table = "+------+------+\n| A    | B    |\n+======+======+\n| 1    | 2    |\n+------+------+";
    let html = convert_grid_table(table);
    assert!(html.contains("<table"));
    assert!(html.contains("grid-table"));
    assert!(html.contains(">A<"));
    assert!(html.contains(">B<"));
}

#[test]
fn test_parse_csv_line() {
    let cells = parse_csv_line("\"Alice\", 28, \"New York\"");
    assert_eq!(cells.len(), 3);
    assert_eq!(cells[0].trim(), "Alice");
    assert_eq!(cells[1].trim(), "28");
    assert_eq!(cells[2].trim(), "New York");
}
