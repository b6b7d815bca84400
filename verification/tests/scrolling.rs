//! Scroll recomputation and the window-size report parser.

use ronto::buffer::LineBuffer;
use ronto::keys::{Dir, Key};
use ronto::session::EditSession;
use ronto::viewport::parse_cursor_report;

fn many_lines(n: usize) -> Vec<u8> {
    let mut text = Vec::new();
    for i in 0..n {
        text.extend_from_slice(format!("line {}\n", i).as_bytes());
    }
    text
}

#[test]
fn scrolling_follows_the_cursor_down_and_back_up() {
    let mut s = EditSession::new(10, 80, None, LineBuffer::from_text(&many_lines(50)));
    for _ in 0..25 {
        s.process_key(Key::Arrow(Dir::Down));
    }
    s.recompute_scroll();
    // minimal scroll: the cursor sits on the window's last row
    assert_eq!(s.viewport.row_offset, 16);
    for _ in 0..25 {
        s.process_key(Key::Arrow(Dir::Up));
    }
    s.recompute_scroll();
    assert_eq!(s.viewport.row_offset, 0);
}

#[test]
fn recompute_scroll_is_idempotent() {
    let mut s = EditSession::new(5, 10, None, LineBuffer::from_text(&many_lines(40)));
    for _ in 0..23 {
        s.process_key(Key::Arrow(Dir::Down));
    }
    s.process_key(Key::End);
    s.recompute_scroll();
    let once = (s.viewport.row_offset, s.viewport.col_offset, s.render_x);
    s.recompute_scroll();
    let twice = (s.viewport.row_offset, s.viewport.col_offset, s.render_x);
    assert_eq!(once, twice);
}

#[test]
fn horizontal_scroll_uses_render_coordinates() {
    // one row with a tab: cursor after the tab is at render column 8
    let mut s = EditSession::new(5, 6, None, LineBuffer::from_text(&b"\tabc\n".to_vec()));
    s.process_key(Key::Arrow(Dir::Right));
    s.recompute_scroll();
    assert_eq!(s.render_x, 8);
    // minimal scroll: render column 8 on a 6-wide screen
    assert_eq!(s.viewport.col_offset, 3);
}

#[test]
fn cursor_report_parses_rows_and_columns() {
    assert_eq!(parse_cursor_report(b"\x1b[24;80R"), Some((24, 80)));
    assert_eq!(parse_cursor_report(b"\x1b[999;1R"), Some((999, 1)));
    // trailing bytes after the second number are ignored
    assert_eq!(parse_cursor_report(b"\x1b[3;4Rxyz"), Some((3, 4)));
}

#[test]
fn malformed_cursor_reports_are_rejected() {
    assert_eq!(parse_cursor_report(b""), None);
    assert_eq!(parse_cursor_report(b"\x1b["), None);
    assert_eq!(parse_cursor_report(b"\x1b[24"), None);
    assert_eq!(parse_cursor_report(b"\x1b[;80R"), None);
    assert_eq!(parse_cursor_report(b"\x1b[24;R"), None);
    assert_eq!(parse_cursor_report(b"\x1b[99999;80R"), None);
    assert_eq!(parse_cursor_report(b"\x1b[80;99999R"), None);
}
