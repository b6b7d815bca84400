//! Exact frame bytes: rows, slicing, status bar, message bar, cursor.

use ronto::buffer::LineBuffer;
use ronto::keys::Key;
use ronto::render::{message_text_vec, push_decimal, render_frame};
use ronto::session::{EditSession, StatusMsg};

fn session(text: &[u8], rows: usize, cols: usize) -> EditSession {
    EditSession::new(rows, cols, None, LineBuffer::from_text(&text.to_vec()))
}

#[test]
fn decimal_formatting() {
    let mut v = Vec::new();
    push_decimal(&mut v, 0);
    assert_eq!(v, b"0".to_vec());
    let mut v = Vec::new();
    push_decimal(&mut v, 12345);
    assert_eq!(v, b"12345".to_vec());
    let mut v = Vec::new();
    push_decimal(&mut v, 10);
    assert_eq!(v, b"10".to_vec());
}

#[test]
fn whole_frame_for_a_tiny_screen() {
    let s = session(b"hi\n", 4, 10);
    let frame = render_frame(&s, false);
    let mut expected = Vec::new();
    expected.extend_from_slice(b"\x1b[?25l\x1b[H");
    expected.extend_from_slice(b"hi\x1b[K\r\n");
    expected.extend_from_slice(b"~\x1b[K\r\n");
    expected.extend_from_slice(b"~\x1b[K\r\n");
    expected.extend_from_slice(b"~\x1b[K\r\n");
    // status bar: the left half alone already fills the ten columns
    expected.extend_from_slice(b"\x1b[7m\x1b[2K[No Name] \r\n\x1b[m");
    // message bar, not shown
    expected.extend_from_slice(b"\x1b[2K");
    // cursor at the top-left, 1-based
    expected.extend_from_slice(b"\x1b[1;1H\x1b[?25h");
    assert_eq!(frame, expected);
}

#[test]
fn status_bar_right_justifies_the_position() {
    let s = session(b"a\nb\nc\n", 3, 40);
    let frame = render_frame(&s, false);
    let text = String::from_utf8_lossy(&frame).to_string();
    // left half, padding, then current/total at the right edge
    let left = "[No Name] - 3 lines";
    let right = "1/3";
    let bar = format!("{}{}{}", left, " ".repeat(40 - left.len() - right.len()), right);
    assert!(text.contains(&bar));
}

#[test]
fn modified_marker_appears_after_an_edit() {
    let mut s = session(b"a\n", 3, 40);
    s.process_key(Key::Char(b'z'));
    s.recompute_scroll();
    let frame = render_frame(&s, false);
    let text = String::from_utf8_lossy(&frame).to_string();
    assert!(text.contains(" (modified)"));
}

#[test]
fn rows_are_sliced_by_the_column_offset_in_render_coordinates() {
    let mut s = session(b"abcdefghijklm\n", 4, 5);
    s.process_key(Key::End);
    s.recompute_scroll();
    // cursor at render column 13; the window shows columns 9..14
    assert_eq!(s.viewport.col_offset, 9);
    let frame = render_frame(&s, false);
    let text = String::from_utf8_lossy(&frame).to_string();
    assert!(text.contains("jklm\x1b[K"));
    assert!(!text.contains("abcde"));
    // the cursor sits on the window's last column
    assert!(text.contains("\x1b[1;5H"));
}

#[test]
fn welcome_banner_is_centered_over_an_empty_buffer() {
    let s = session(b"", 6, 40);
    let frame = render_frame(&s, false);
    let text = String::from_utf8_lossy(&frame).to_string();
    // 40 wide, 29 bytes of banner: 5 of padding, tilde first
    let banner = format!("~{}Ronto editor -- version 0.0.1", " ".repeat(4));
    assert!(text.contains(&banner));
}

#[test]
fn no_banner_once_the_buffer_has_rows() {
    let s = session(b"x\n", 6, 40);
    let frame = render_frame(&s, false);
    let text = String::from_utf8_lossy(&frame).to_string();
    assert!(!text.contains("Ronto editor"));
}

#[test]
fn message_bar_shows_and_truncates_the_message() {
    let mut s = session(b"a\n", 3, 10);
    s.set_status(StatusMsg::Help);
    let shown = render_frame(&s, true);
    let hidden = render_frame(&s, false);
    let shown_text = String::from_utf8_lossy(&shown).to_string();
    let hidden_text = String::from_utf8_lossy(&hidden).to_string();
    // cut to the screen width
    assert!(shown_text.contains("HELP: Ctrl"));
    assert!(!shown_text.contains("HELP: Ctrl-"));
    assert!(!hidden_text.contains("HELP"));
}

#[test]
fn status_messages_format_their_numbers() {
    let mut s = session(b"a\n", 3, 80);
    s.set_status(StatusMsg::QuitWarning(2));
    let v = message_text_vec(&s);
    assert_eq!(
        v,
        b"WARNING!!! File has unsaved changes. Press Ctrl-Q 2 more times to quit.".to_vec()
    );
    s.set_status(StatusMsg::BytesWritten(120));
    let v = message_text_vec(&s);
    assert_eq!(v, b"120 bytes written to disk".to_vec());
}

#[test]
fn prompting_shows_the_prompt_in_the_message_bar() {
    let mut s = session(b"a\n", 3, 80);
    s.process_key(Key::Char(b'y'));
    s.process_key(Key::Char(19));
    s.process_key(Key::Char(b'f'));
    let v = message_text_vec(&s);
    assert_eq!(v, b"Save as: f (ESC to cancel)".to_vec());
}
