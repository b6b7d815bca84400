//! Loading, saving and row operations of the line buffer.

use ronto::buffer::LineBuffer;

fn load(text: &[u8]) -> LineBuffer {
    LineBuffer::from_text(&text.to_vec())
}

fn contents(b: &LineBuffer) -> Vec<Vec<u8>> {
    b.rows.iter().map(|r| r.content.clone()).collect()
}

#[test]
fn load_splits_on_newlines() {
    let b = load(b"hello\nworld\n");
    assert_eq!(contents(&b), vec![b"hello".to_vec(), b"world".to_vec()]);
}

#[test]
fn load_keeps_empty_lines_and_trailing_chunk() {
    let b = load(b"a\n\nb");
    assert_eq!(contents(&b), vec![b"a".to_vec(), b"".to_vec(), b"b".to_vec()]);
}

#[test]
fn load_of_empty_text_gives_no_rows() {
    let b = load(b"");
    assert_eq!(b.rows.len(), 0);
}

#[test]
fn roundtrip_is_identity_on_newline_terminated_text() {
    for text in [
        b"hello\nworld\n".to_vec(),
        b"\n".to_vec(),
        b"\n\n\n".to_vec(),
        b"one line\n".to_vec(),
        b"".to_vec(),
        b"a\tb\n  c\n".to_vec(),
    ] {
        let b = load(&text);
        assert_eq!(b.to_text(), text);
    }
}

#[test]
fn roundtrip_normalizes_a_missing_final_newline() {
    let b = load(b"hello\nworld");
    assert_eq!(b.to_text(), b"hello\nworld\n".to_vec());
    let b = load(b"x");
    assert_eq!(b.to_text(), b"x\n".to_vec());
}

#[test]
fn insert_and_delete_rows() {
    let mut b = load(b"a\nc\n");
    b.insert_row(1, b"b".to_vec());
    assert_eq!(contents(&b), vec![b"a".to_vec(), b"b".to_vec(), b"c".to_vec()]);
    // past the end: no row is added
    b.insert_row(99, b"z".to_vec());
    assert_eq!(b.rows.len(), 3);
    b.delete_row(0);
    assert_eq!(contents(&b), vec![b"b".to_vec(), b"c".to_vec()]);
    b.delete_row(99);
    assert_eq!(b.rows.len(), 2);
}

#[test]
fn split_and_join() {
    let mut b = load(b"abcdef\n");
    b.split(0, 3);
    assert_eq!(contents(&b), vec![b"abc".to_vec(), b"def".to_vec()]);
    b.join_with_previous(1);
    assert_eq!(contents(&b), vec![b"abcdef".to_vec()]);
}

#[test]
fn char_edits_touch_one_row_only() {
    let mut b = load(b"ab\ncd\n");
    b.insert_char(1, 1, b'x');
    assert_eq!(contents(&b), vec![b"ab".to_vec(), b"cxd".to_vec()]);
    b.delete_char(0, 0);
    assert_eq!(contents(&b), vec![b"b".to_vec(), b"cxd".to_vec()]);
    // out-of-range column: nothing happens
    b.delete_char(0, 5);
    assert_eq!(contents(&b), vec![b"b".to_vec(), b"cxd".to_vec()]);
}
