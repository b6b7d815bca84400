//! Cursor movement and editing through the session state machine.

use ronto::buffer::LineBuffer;
use ronto::keys::{Dir, Key};
use ronto::session::{Action, EditSession, KEY_BACKSPACE, KEY_RETURN};

fn session(text: &[u8]) -> EditSession {
    EditSession::new(24, 80, None, LineBuffer::from_text(&text.to_vec()))
}

fn contents(s: &EditSession) -> Vec<Vec<u8>> {
    s.buf.rows.iter().map(|r| r.content.clone()).collect()
}

#[test]
fn backspace_at_buffer_start_is_a_no_op() {
    let mut s = session(b"abc\n");
    let a = s.process_key(Key::Char(KEY_BACKSPACE));
    assert!(matches!(a, Action::Continue));
    assert_eq!(contents(&s), vec![b"abc".to_vec()]);
    assert_eq!((s.cursor_x, s.cursor_y), (0, 0));
    assert!(!s.dirty);
}

#[test]
fn delete_at_the_end_of_the_last_row_is_a_no_op() {
    let mut s = session(b"ab\n");
    s.process_key(Key::End);
    assert_eq!(s.cursor_x, 2);
    s.process_key(Key::Delete);
    assert_eq!(contents(&s), vec![b"ab".to_vec()]);
    assert!(!s.dirty);
}

#[test]
fn left_arrow_at_origin_does_not_move() {
    let mut s = session(b"abc\ndef\n");
    s.process_key(Key::Arrow(Dir::Left));
    assert_eq!((s.cursor_x, s.cursor_y), (0, 0));
}

#[test]
fn backspace_at_column_zero_joins_with_the_previous_row() {
    let mut s = session(b"abc\ndef\n");
    s.process_key(Key::Arrow(Dir::Down));
    assert_eq!((s.cursor_x, s.cursor_y), (0, 1));
    let a = s.process_key(Key::Char(KEY_BACKSPACE));
    assert!(matches!(a, Action::Continue));
    assert_eq!(contents(&s), vec![b"abcdef".to_vec()]);
    assert_eq!((s.cursor_x, s.cursor_y), (3, 0));
    assert!(s.dirty);
}

#[test]
fn typing_return_typing_builds_two_rows() {
    let mut s = session(b"");
    s.process_key(Key::Char(b'h'));
    s.process_key(Key::Char(b'i'));
    s.process_key(Key::Char(KEY_RETURN));
    s.process_key(Key::Char(b'x'));
    assert_eq!(contents(&s), vec![b"hi".to_vec(), b"x".to_vec()]);
    assert!(s.dirty);
    assert_eq!((s.cursor_x, s.cursor_y), (1, 1));
}

#[test]
fn backspace_inside_a_row_deletes_the_previous_character() {
    let mut s = session(b"abc\n");
    s.process_key(Key::Arrow(Dir::Right));
    s.process_key(Key::Arrow(Dir::Right));
    let a = s.process_key(Key::Delete);
    assert!(matches!(a, Action::Continue));
    assert_eq!(contents(&s), vec![b"ab".to_vec()]);
    assert_eq!((s.cursor_x, s.cursor_y), (2, 0));
    assert!(s.dirty);
}

#[test]
fn return_at_column_zero_inserts_an_empty_row_above() {
    let mut s = session(b"abc\n");
    s.process_key(Key::Char(KEY_RETURN));
    assert_eq!(contents(&s), vec![b"".to_vec(), b"abc".to_vec()]);
    assert_eq!((s.cursor_x, s.cursor_y), (0, 1));
}

#[test]
fn return_mid_row_splits_it() {
    let mut s = session(b"abcdef\n");
    for _ in 0..3 {
        s.process_key(Key::Arrow(Dir::Right));
    }
    s.process_key(Key::Char(KEY_RETURN));
    assert_eq!(contents(&s), vec![b"abc".to_vec(), b"def".to_vec()]);
    assert_eq!((s.cursor_x, s.cursor_y), (0, 1));
}

#[test]
fn horizontal_wrapping_at_row_ends() {
    let mut s = session(b"ab\ncd\n");
    s.process_key(Key::End);
    assert_eq!((s.cursor_x, s.cursor_y), (2, 0));
    s.process_key(Key::Arrow(Dir::Right));
    assert_eq!((s.cursor_x, s.cursor_y), (0, 1));
    s.process_key(Key::Arrow(Dir::Left));
    assert_eq!((s.cursor_x, s.cursor_y), (2, 0));
}

#[test]
fn vertical_movement_clamps_the_column() {
    let mut s = session(b"longer line\nab\n");
    s.process_key(Key::End);
    assert_eq!(s.cursor_x, 11);
    s.process_key(Key::Arrow(Dir::Down));
    assert_eq!((s.cursor_x, s.cursor_y), (2, 1));
}

#[test]
fn home_and_end_keys() {
    let mut s = session(b"hello\n");
    s.process_key(Key::End);
    assert_eq!(s.cursor_x, 5);
    s.process_key(Key::Home);
    assert_eq!(s.cursor_x, 0);
}

#[test]
fn unbound_control_bytes_are_not_inserted() {
    let mut s = session(b"");
    s.process_key(Key::Char(1));
    s.process_key(Key::Char(31));
    s.process_key(Key::Escape);
    s.process_key(Key::Unknown);
    assert_eq!(s.buf.rows.len(), 0);
    assert!(!s.dirty);
}

#[test]
fn typing_below_the_last_row_appends_a_row() {
    let mut s = session(b"ab\n");
    s.process_key(Key::Arrow(Dir::Down));
    assert_eq!((s.cursor_x, s.cursor_y), (0, 1));
    s.process_key(Key::Char(b'z'));
    assert_eq!(contents(&s), vec![b"ab".to_vec(), b"z".to_vec()]);
}

#[test]
fn page_keys_move_one_screenful() {
    let mut text = Vec::new();
    for i in 0..100 {
        text.extend_from_slice(format!("line {}\n", i).as_bytes());
    }
    let mut s = EditSession::new(10, 80, None, LineBuffer::from_text(&text));
    s.process_key(Key::PageDown);
    // from the window's bottom row (9), ten steps down
    assert_eq!(s.cursor_y, 19);
    s.recompute_scroll();
    s.process_key(Key::PageUp);
    // from the window's top row, ten steps up
    assert_eq!(s.cursor_y, 0);
}
