//! The quit confirmation and the save flow with its prompt.

use ronto::buffer::LineBuffer;
use ronto::keys::Key;
use ronto::session::{
    Action, EditSession, Mode, StatusMsg, KEY_CTRL_Q, KEY_CTRL_S, KEY_RETURN, QUIT_TIMES,
};

fn session(text: &[u8], filename: Option<&[u8]>) -> EditSession {
    EditSession::new(24, 80, filename.map(|f| f.to_vec()), LineBuffer::from_text(&text.to_vec()))
}

fn contents(s: &EditSession) -> Vec<Vec<u8>> {
    s.buf.rows.iter().map(|r| r.content.clone()).collect()
}

#[test]
fn clean_buffer_quits_at_once() {
    let mut s = session(b"abc\n", None);
    let a = s.process_key(Key::Char(KEY_CTRL_Q));
    assert!(matches!(a, Action::Quit));
}

#[test]
fn dirty_buffer_needs_three_quit_presses() {
    assert_eq!(QUIT_TIMES, 3);
    let mut s = session(b"", None);
    s.process_key(Key::Char(b'a'));
    assert!(s.dirty);

    let a1 = s.process_key(Key::Char(KEY_CTRL_Q));
    assert!(matches!(a1, Action::Continue));
    assert_eq!(s.status, StatusMsg::QuitWarning(2));

    let a2 = s.process_key(Key::Char(KEY_CTRL_Q));
    assert!(matches!(a2, Action::Continue));
    assert_eq!(s.status, StatusMsg::QuitWarning(1));

    let a3 = s.process_key(Key::Char(KEY_CTRL_Q));
    assert!(matches!(a3, Action::Quit));
}

#[test]
fn any_other_key_resets_the_quit_counter() {
    let mut s = session(b"", None);
    s.process_key(Key::Char(b'a'));
    s.process_key(Key::Char(KEY_CTRL_Q));
    s.process_key(Key::Char(KEY_CTRL_Q));
    assert_eq!(s.quit_times, 1);
    s.process_key(Key::Home);
    assert_eq!(s.quit_times, QUIT_TIMES);
    // the confirmation starts over
    let a = s.process_key(Key::Char(KEY_CTRL_Q));
    assert!(matches!(a, Action::Continue));
    assert_eq!(s.status, StatusMsg::QuitWarning(2));
}

#[test]
fn save_with_a_filename_hands_out_the_serialized_buffer() {
    let mut s = session(b"hello\nworld\n", Some(b"f.txt"));
    let a = s.process_key(Key::Char(KEY_CTRL_S));
    match a {
        Action::Save(data) => assert_eq!(data, b"hello\nworld\n".to_vec()),
        _ => panic!("expected a save action"),
    }
}

#[test]
fn save_success_clears_dirty_and_reports_the_byte_count() {
    let mut s = session(b"", Some(b"f.txt"));
    s.process_key(Key::Char(b'a'));
    assert!(s.dirty);
    let a = s.process_key(Key::Char(KEY_CTRL_S));
    let written = match a {
        Action::Save(data) => data.len(),
        _ => panic!("expected a save action"),
    };
    s.save_finished(true, written);
    assert!(!s.dirty);
    assert_eq!(s.status, StatusMsg::BytesWritten(2));
}

#[test]
fn save_failure_keeps_dirty_and_the_buffer_untouched() {
    let mut s = session(b"keep\nme\n", Some(b"f.txt"));
    s.process_key(Key::Char(b'x'));
    let before = contents(&s);
    assert!(s.dirty);
    let a = s.process_key(Key::Char(KEY_CTRL_S));
    assert!(matches!(a, Action::Save(_)));
    s.save_finished(false, 0);
    assert!(s.dirty);
    assert_eq!(s.status, StatusMsg::SaveFailed);
    assert_eq!(contents(&s), before);
}

#[test]
fn save_without_a_filename_prompts_for_one() {
    let mut s = session(b"data\n", None);
    s.process_key(Key::Char(b'!'));
    let a = s.process_key(Key::Char(KEY_CTRL_S));
    assert!(matches!(a, Action::Continue));
    assert_eq!(s.mode, Mode::Prompting);

    for c in b"out.txt" {
        s.process_key(Key::Char(*c));
    }
    assert_eq!(s.prompt_buf, b"out.txt".to_vec());

    let a = s.process_key(Key::Char(KEY_RETURN));
    match a {
        Action::Save(data) => assert_eq!(data, b"!data\n".to_vec()),
        _ => panic!("expected a save action"),
    }
    assert_eq!(s.mode, Mode::Normal);
    assert_eq!(s.filename, Some(b"out.txt".to_vec()));
}

#[test]
fn prompt_backspace_edits_the_name_and_empty_return_stays() {
    let mut s = session(b"", None);
    s.process_key(Key::Char(b'q'));
    s.process_key(Key::Char(KEY_CTRL_S));
    s.process_key(Key::Char(b'a'));
    s.process_key(Key::Char(b'b'));
    s.process_key(Key::Delete);
    assert_eq!(s.prompt_buf, b"a".to_vec());
    s.process_key(Key::Char(127));
    assert_eq!(s.prompt_buf, b"".to_vec());
    // Return with an empty name confirms nothing
    let a = s.process_key(Key::Char(KEY_RETURN));
    assert!(matches!(a, Action::Continue));
    assert_eq!(s.mode, Mode::Prompting);
    // control bytes are not typed into the name
    s.process_key(Key::Char(1));
    assert_eq!(s.prompt_buf, b"".to_vec());
}

#[test]
fn prompt_escape_aborts_the_save() {
    let mut s = session(b"data\n", None);
    s.process_key(Key::Char(b'x'));
    s.process_key(Key::Char(KEY_CTRL_S));
    assert_eq!(s.mode, Mode::Prompting);
    let a = s.process_key(Key::Escape);
    assert!(matches!(a, Action::Continue));
    assert_eq!(s.mode, Mode::Normal);
    assert_eq!(s.status, StatusMsg::SaveAborted);
    assert_eq!(s.filename, None);
    assert!(s.dirty);
}
