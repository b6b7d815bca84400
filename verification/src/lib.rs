//! Core of a small full-screen terminal text editor.
//!
//! The library holds the editor's logic: decoding raw key bytes into key
//! events, the line buffer with its tab-expanded rendered form, the viewport
//! arithmetic that keeps the cursor visible, the edit-session state machine
//! (cursor movement, editing, save and quit confirmation), and the renderer
//! that lays out each frame as a byte sequence. Terminal configuration and
//! all file and terminal I/O live outside the library.

pub mod buffer;
pub mod keys;
pub mod render;
pub mod row;
pub mod session;
pub mod viewport;

use vstd::prelude::*;

verus! {

/// Strips a key byte down to its control-key value (Ctrl-A is 1, and so on).
pub fn ctrl_key(b: u8) -> (r: u8)
    ensures
        r == (b & 0x1f),
{
    b & 0x1f
}

/// Whether a byte is a control byte: an ASCII control code or DEL.
pub fn is_ctrl(b: u8) -> (r: bool)
    ensures
        r == (b <= 31 || b == 127),
{
    b <= 31 || b == 127
}

} // verus!
