use holo::grid::{compute_col_widths, format_row, slice_line};

fn s(v: &[&str]) -> Vec<String> {
    v.iter().map(|x| x.to_string()).collect()
}

#[test]
fn column_widths_take_the_widest_of_header_and_cells() {
    let columns = s(&["id", "name"]);
    let rows = vec![s(&["1", "Alice"]), s(&["12345", "Bo"]), s(&["7"])];
    assert_eq!(compute_col_widths(&columns, &rows), vec![5, 5]);
}

#[test]
fn column_widths_count_characters_not_bytes() {
    let columns = s(&["é"]);
    let rows = vec![s(&["日本"])];
    assert_eq!(compute_col_widths(&columns, &rows), vec![2]);
}

#[test]
fn cells_past_the_last_header_are_not_counted() {
    let columns = s(&["a"]);
    let rows = vec![s(&["b", "a much longer cell"])];
    assert_eq!(compute_col_widths(&columns, &rows), vec![1]);
}

#[test]
fn rows_are_padded_and_joined_by_the_gutter() {
    let row = format_row(&s(&["1", "Alice"]), &[3, 6], 2);
    assert_eq!(row, "1    Alice ");
}

#[test]
fn cells_past_the_last_width_are_not_padded() {
    let row = format_row(&s(&["abc", "de"]), &[1], 1);
    assert_eq!(row, "abc de");
    assert_eq!(format_row(&[], &[4], 3), "");
}

#[test]
fn slice_line_shows_the_scrolled_window() {
    assert_eq!(slice_line("hello world", 6, 3), "wor");
    assert_eq!(slice_line("hello", 3, 10), "lo");
    assert_eq!(slice_line("hello", 9, 2), "");
    assert_eq!(slice_line("hello", 1, 0), "");
    assert_eq!(slice_line("héllo", 1, 2), "él");
}

#[test]
fn rows_line_up_with_the_header() {
    let columns = s(&["id", "name", "email"]);
    let rows = vec![s(&["1", "Al", "a@x"]), s(&["12345", "Bartholomew", ""])];
    let widths = compute_col_widths(&columns, &rows);
    let header = format_row(&columns, &widths, 2).chars().count();
    for r in &rows {
        assert_eq!(format_row(r, &widths, 2).chars().count(), header);
    }
}
