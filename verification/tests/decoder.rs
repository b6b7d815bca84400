//! The key decoder's table, short reads and unknown suffixes.

use ronto::keys::{decode_escape, decode_key, Dir, Key};

#[test]
fn plain_byte_is_character() {
    assert_eq!(decode_key(b'x', &[]), Key::Char(b'x'));
    assert_eq!(decode_key(13, &[]), Key::Char(13));
    assert_eq!(decode_key(127, &[]), Key::Char(127));
    assert_eq!(decode_key(200, &[]), Key::Char(200));
}

#[test]
fn arrow_keys() {
    assert_eq!(decode_key(27, b"[A"), Key::Arrow(Dir::Up));
    assert_eq!(decode_key(27, b"[B"), Key::Arrow(Dir::Down));
    assert_eq!(decode_key(27, b"[C"), Key::Arrow(Dir::Right));
    assert_eq!(decode_key(27, b"[D"), Key::Arrow(Dir::Left));
}

#[test]
fn bracket_letter_keys() {
    assert_eq!(decode_key(27, b"[H"), Key::Home);
    assert_eq!(decode_key(27, b"[F"), Key::End);
}

#[test]
fn o_letter_keys() {
    assert_eq!(decode_key(27, b"OH"), Key::Home);
    assert_eq!(decode_key(27, b"OF"), Key::End);
    assert_eq!(decode_key(27, b"OX"), Key::Unknown);
}

#[test]
fn digit_tilde_keys() {
    assert_eq!(decode_key(27, b"[1~"), Key::Home);
    assert_eq!(decode_key(27, b"[3~"), Key::Delete);
    assert_eq!(decode_key(27, b"[4~"), Key::End);
    assert_eq!(decode_key(27, b"[5~"), Key::PageUp);
    assert_eq!(decode_key(27, b"[6~"), Key::PageDown);
    assert_eq!(decode_key(27, b"[7~"), Key::Home);
    assert_eq!(decode_key(27, b"[8~"), Key::End);
    assert_eq!(decode_key(27, b"[9~"), Key::Unknown);
    assert_eq!(decode_key(27, b"[2~"), Key::Unknown);
}

#[test]
fn short_or_odd_sequences_degrade_to_escape() {
    assert_eq!(decode_key(27, b""), Key::Escape);
    assert_eq!(decode_key(27, b"["), Key::Escape);
    assert_eq!(decode_key(27, b"[5"), Key::Escape);
    assert_eq!(decode_key(27, b"[5x"), Key::Escape);
    assert_eq!(decode_key(27, b"Q"), Key::Escape);
    assert_eq!(decode_escape(&[0x80, b'A']), Key::Escape);
    assert_eq!(decode_escape(&[b'[', 0x80]), Key::Escape);
    assert_eq!(decode_escape(&[b'[', b'5', 0x80]), Key::Escape);
}

#[test]
fn unknown_bracket_suffix_is_a_no_op_key() {
    assert_eq!(decode_key(27, b"[Z"), Key::Unknown);
    assert_eq!(decode_key(27, b"[x"), Key::Unknown);
}
