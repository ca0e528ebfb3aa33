use sysdash::table::{Align, Cell, Table};

fn cell(s: &str) -> Cell {
    Cell::new(s.to_string())
}

#[test]
fn natural_width_counts_columns_and_separators() {
    let mut t = Table::new();
    t.add_header(vec!["ab".to_string(), "c".to_string()]);
    t.add_row(vec![cell("x"), cell("yy")]);
    // columns 2 and 2, one separating space
    assert_eq!(t.natural_width(), 5);
}

#[test]
fn natural_width_of_empty_table_is_zero() {
    let t = Table::new();
    assert_eq!(t.natural_width(), 0);
}

#[test]
fn render_at_natural_width() {
    let mut t = Table::new();
    t.add_header(vec!["ab".to_string(), "c".to_string()]);
    t.add_row(vec![cell("x"), cell("yy")]);
    let lines = t.render_lines(0);
    assert_eq!(lines, vec!["ab c ", "x  yy"]);
}

#[test]
fn render_stretches_last_column_to_target() {
    let mut t = Table::new();
    t.add_header(vec!["ab".to_string(), "c".to_string()]);
    t.add_row(vec![cell("x"), cell("yy")]);
    let lines = t.render_lines(7);
    assert_eq!(lines, vec!["ab  c  ", "x  yy  "]);
    for l in &lines {
        assert_eq!(l.chars().count(), 7);
    }
}

#[test]
fn right_alignment_pads_on_the_left() {
    let mut t = Table::new();
    t.add_row(vec![cell("name:"), Cell::aligned("42".to_string(), Align::Right)]);
    t.add_row(vec![cell("other:"), Cell::aligned("7".to_string(), Align::Right)]);
    let lines = t.render_lines(0);
    assert_eq!(lines, vec!["name:  42", "other:  7"]);
}

#[test]
fn wide_characters_measure_by_display_width() {
    let mut t = Table::new();
    // two CJK characters occupy four columns
    t.add_row(vec![cell("\u{65e5}\u{672c}")]);
    assert_eq!(t.natural_width(), 4);
    let mut t2 = Table::new();
    t2.add_row(vec![cell("\u{65e5}\u{672c}"), cell("x")]);
    t2.add_row(vec![cell("abcde"), cell("y")]);
    // first column is five wide (abcde), second one wide
    assert_eq!(t2.natural_width(), 7);
    let lines = t2.render_lines(0);
    // the CJK cell is padded with one space to reach display width five
    assert_eq!(lines[0], "\u{65e5}\u{672c}  x");
    assert_eq!(lines[1], "abcde y");
}
