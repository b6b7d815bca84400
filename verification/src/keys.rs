//! Decoding raw terminal bytes into logical key events.
//!
//! Every call decodes one event from scratch: there is no state kept across
//! calls. A non-escape byte is a character event. After an escape byte the
//! caller reads up to three more bytes (a short read is fine) and hands them
//! here; an incomplete or non-ASCII sequence degrades to a bare Escape, and
//! an unrecognized suffix becomes `Unknown`, which no layer treats as an
//! error.

use vstd::prelude::*;

verus! {

/// The escape byte that begins a terminal escape sequence.
pub const ESC_BYTE: u8 = 27;

/// An arrow-key direction.
#[derive(Clone, Copy, PartialEq, Eq, Debug, Structural)]
pub enum Dir {
    Up,
    Down,
    Left,
    Right,
}

/// One logical key event.
#[derive(Clone, Copy, PartialEq, Eq, Debug, Structural)]
pub enum Key {
    /// A plain byte, control bytes included; the session layer interprets
    /// control values.
    Char(u8),
    Arrow(Dir),
    PageUp,
    PageDown,
    Home,
    End,
    Delete,
    Escape,
    /// An unrecognized escape suffix: always treated as a no-op.
    Unknown,
}

/// The decoding table for the bytes that follow an escape byte.
pub open spec fn spec_decode_escape(s: Seq<u8>) -> Key {
    if s.len() < 2 {
        Key::Escape
    } else if s[0] >= 128 || s[1] >= 128 {
        Key::Escape
    } else if s[0] == 91 {  // '['
        if 48 <= s[1] <= 57 {  // a digit
            if s.len() < 3 || s[2] >= 128 {
                Key::Escape
            } else if s[2] == 126 {  // '~'
                if s[1] == 49 || s[1] == 55 {  // '1' or '7'
                    Key::Home
                } else if s[1] == 51 {  // '3'
                    Key::Delete
                } else if s[1] == 52 || s[1] == 56 {  // '4' or '8'
                    Key::End
                } else if s[1] == 53 {  // '5'
                    Key::PageUp
                } else if s[1] == 54 {  // '6'
                    Key::PageDown
                } else {
                    Key::Unknown
                }
            } else {
                Key::Escape
            }
        } else if s[1] == 65 {  // 'A'
            Key::Arrow(Dir::Up)
        } else if s[1] == 66 {  // 'B'
            Key::Arrow(Dir::Down)
        } else if s[1] == 67 {  // 'C'
            Key::Arrow(Dir::Right)
        } else if s[1] == 68 {  // 'D'
            Key::Arrow(Dir::Left)
        } else if s[1] == 72 {  // 'H'
            Key::Home
        } else if s[1] == 70 {  // 'F'
            Key::End
        } else {
            Key::Unknown
        }
    } else if s[0] == 79 {  // 'O'
        if s[1] == 72 {  // 'H'
            Key::Home
        } else if s[1] == 70 {  // 'F'
            Key::End
        } else {
            Key::Unknown
        }
    } else {
        Key::Escape
    }
}

/// What one first byte, with the bytes read after an escape, decodes to.
pub open spec fn spec_decode_key(first: u8, rest: Seq<u8>) -> Key {
    if first == ESC_BYTE {
        spec_decode_escape(rest)
    } else {
        Key::Char(first)
    }
}

/// Decodes the bytes that were read after an escape byte.
pub fn decode_escape(s: &[u8]) -> (k: Key)
    ensures
        k == spec_decode_escape(s@),
{
    if s.len() < 2 {
        return Key::Escape;
    }
    let b0 = s[0];
    let b1 = s[1];
    if b0 >= 128 || b1 >= 128 {
        return Key::Escape;
    }
    if b0 == 91 {
        if 48 <= b1 && b1 <= 57 {
            if s.len() < 3 {
                return Key::Escape;
            }
            let b2 = s[2];
            if b2 >= 128 {
                return Key::Escape;
            }
            if b2 == 126 {
                if b1 == 49 || b1 == 55 {
                    Key::Home
                } else if b1 == 51 {
                    Key::Delete
                } else if b1 == 52 || b1 == 56 {
                    Key::End
                } else if b1 == 53 {
                    Key::PageUp
                } else if b1 == 54 {
                    Key::PageDown
                } else {
                    Key::Unknown
                }
            } else {
                Key::Escape
            }
        } else if b1 == 65 {
            Key::Arrow(Dir::Up)
        } else if b1 == 66 {
            Key::Arrow(Dir::Down)
        } else if b1 == 67 {
            Key::Arrow(Dir::Right)
        } else if b1 == 68 {
            Key::Arrow(Dir::Left)
        } else if b1 == 72 {
            Key::Home
        } else if b1 == 70 {
            Key::End
        } else {
            Key::Unknown
        }
    } else if b0 == 79 {
        if b1 == 72 {
            Key::Home
        } else if b1 == 70 {
            Key::End
        } else {
            Key::Unknown
        }
    } else {
        Key::Escape
    }
}

/// Decodes one key event from its first byte and, when that byte is the
/// escape byte, the bytes read after it.
pub fn decode_key(first: u8, rest: &[u8]) -> (k: Key)
    ensures
        k == spec_decode_key(first, rest@),
{
    if first == ESC_BYTE {
        decode_escape(rest)
    } else {
        Key::Char(first)
    }
}

} // verus!
