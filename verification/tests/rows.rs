//! Tab expansion, the rendered form, and the render-column mapping.

use ronto::row::Row;
use ronto::viewport::file_col_to_render_col;

#[test]
fn single_tab_renders_as_eight_spaces() {
    let row = Row::new(b"\t".to_vec());
    assert_eq!(row.rendered, b"        ".to_vec());
    assert_eq!(row.rendered.len(), 8);
}

#[test]
fn inserting_before_a_tab_shifts_its_expansion_boundary() {
    let mut row = Row::new(b"\t".to_vec());
    row.insert_char(0, b'x');
    assert_eq!(row.content, b"x\t".to_vec());
    // the tab now starts at column 1 and pads up to the same stop
    assert_eq!(row.rendered, b"x       ".to_vec());
    assert_eq!(row.rendered.len(), 8);
}

#[test]
fn tab_at_a_stop_boundary_expands_fully_again() {
    let row = Row::new(b"12345678\t".to_vec());
    assert_eq!(row.rendered.len(), 16);
}

#[test]
fn mixed_tabs_and_text() {
    let row = Row::new(b"ab\tc\td".to_vec());
    // "ab" then 6 spaces to column 8, "c" then 7 spaces to column 16, "d"
    assert_eq!(row.rendered, b"ab      c       d".to_vec());
}

#[test]
fn render_col_agrees_with_rendered_positions() {
    let row = Row::new(b"a\tb".to_vec());
    // rendered: "a" + 7 spaces + "b"
    assert_eq!(row.rendered.len(), 9);
    assert_eq!(file_col_to_render_col(&row, 0), 0);
    assert_eq!(file_col_to_render_col(&row, 1), 1);
    assert_eq!(file_col_to_render_col(&row, 2), 8);
    assert_eq!(file_col_to_render_col(&row, 3), 9);
    // a column past the end clamps to the row's full render width
    assert_eq!(file_col_to_render_col(&row, 10), 9);
}

#[test]
fn row_edits_keep_rendered_in_sync() {
    let mut row = Row::new(b"hello".to_vec());
    row.delete_char(1);
    assert_eq!(row.content, b"hllo".to_vec());
    assert_eq!(row.rendered, b"hllo".to_vec());
    row.append(b"!\t");
    assert_eq!(row.content, b"hllo!\t".to_vec());
    assert_eq!(row.rendered, b"hllo!   ".to_vec());
    let rest = row.split_off(4);
    assert_eq!(row.content, b"hllo".to_vec());
    assert_eq!(rest.content, b"!\t".to_vec());
    assert_eq!(rest.rendered, b"!       ".to_vec());
}

#[test]
fn insert_past_end_clamps_to_row_length() {
    let mut row = Row::new(b"ab".to_vec());
    row.insert_char(99, b'c');
    assert_eq!(row.content, b"abc".to_vec());
    row.delete_char(99);
    assert_eq!(row.content, b"abc".to_vec());
}
