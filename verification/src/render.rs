//! Laying out one full frame as the exact byte sequence written to the
//! terminal.
//!
//! Every frame is a full repaint: hide the cursor, go home, draw one line
//! per screen row (a slice of the row's rendered form, a tilde filler, or
//! the centered welcome banner), then the inverted status bar, the message
//! bar, and finally place and show the cursor. The escape sequences are a
//! fixed contract with the terminal and are reproduced verbatim.

use vstd::prelude::*;
use crate::row::{render_of, spaces};
use crate::session::{EditSession, Mode, StatusMsg};

verus! {

/// The escape sequence that hides the cursor.
pub open spec fn esc_hide_cursor() -> Seq<u8> {
    seq![27u8, 91u8, 63u8, 50u8, 53u8, 108u8]
}

/// Builds `esc_hide_cursor` as bytes.
pub fn esc_hide_cursor_vec() -> (v: Vec<u8>)
    ensures
        v@ == esc_hide_cursor(),
{
    let v: Vec<u8> = vec![27u8, 91u8, 63u8, 50u8, 53u8, 108u8];
    proof {
        assert(v@ =~= esc_hide_cursor());
    }
    v
}

/// The escape sequence that shows the cursor.
pub open spec fn esc_show_cursor() -> Seq<u8> {
    seq![27u8, 91u8, 63u8, 50u8, 53u8, 104u8]
}

/// Builds `esc_show_cursor` as bytes.
pub fn esc_show_cursor_vec() -> (v: Vec<u8>)
    ensures
        v@ == esc_show_cursor(),
{
    let v: Vec<u8> = vec![27u8, 91u8, 63u8, 50u8, 53u8, 104u8];
    proof {
        assert(v@ =~= esc_show_cursor());
    }
    v
}

/// The escape sequence that moves the cursor to the top-left corner.
pub open spec fn esc_cursor_home() -> Seq<u8> {
    seq![27u8, 91u8, 72u8]
}

/// Builds `esc_cursor_home` as bytes.
pub fn esc_cursor_home_vec() -> (v: Vec<u8>)
    ensures
        v@ == esc_cursor_home(),
{
    let v: Vec<u8> = vec![27u8, 91u8, 72u8];
    proof {
        assert(v@ =~= esc_cursor_home());
    }
    v
}

/// The escape sequence that erases the line right of the cursor.
pub open spec fn esc_erase_line_end() -> Seq<u8> {
    seq![27u8, 91u8, 75u8]
}

/// Builds `esc_erase_line_end` as bytes.
pub fn esc_erase_line_end_vec() -> (v: Vec<u8>)
    ensures
        v@ == esc_erase_line_end(),
{
    let v: Vec<u8> = vec![27u8, 91u8, 75u8];
    proof {
        assert(v@ =~= esc_erase_line_end());
    }
    v
}

/// The escape sequence that clears the whole line.
pub open spec fn esc_clear_line() -> Seq<u8> {
    seq![27u8, 91u8, 50u8, 75u8]
}

/// Builds `esc_clear_line` as bytes.
pub fn esc_clear_line_vec() -> (v: Vec<u8>)
    ensures
        v@ == esc_clear_line(),
{
    let v: Vec<u8> = vec![27u8, 91u8, 50u8, 75u8];
    proof {
        assert(v@ =~= esc_clear_line());
    }
    v
}

/// The escape sequence that inverts the colors.
pub open spec fn esc_invert() -> Seq<u8> {
    seq![27u8, 91u8, 55u8, 109u8]
}

/// Builds `esc_invert` as bytes.
pub fn esc_invert_vec() -> (v: Vec<u8>)
    ensures
        v@ == esc_invert(),
{
    let v: Vec<u8> = vec![27u8, 91u8, 55u8, 109u8];
    proof {
        assert(v@ =~= esc_invert());
    }
    v
}

/// The escape sequence that resets the colors.
pub open spec fn esc_reset_color() -> Seq<u8> {
    seq![27u8, 91u8, 109u8]
}

/// Builds `esc_reset_color` as bytes.
pub fn esc_reset_color_vec() -> (v: Vec<u8>)
    ensures
        v@ == esc_reset_color(),
{
    let v: Vec<u8> = vec![27u8, 91u8, 109u8];
    proof {
        assert(v@ =~= esc_reset_color());
    }
    v
}

/// The escape sequence that clears the whole screen.
pub open spec fn esc_clear_screen() -> Seq<u8> {
    seq![27u8, 91u8, 50u8, 74u8]
}

/// Builds `esc_clear_screen` as bytes.
pub fn esc_clear_screen_vec() -> (v: Vec<u8>)
    ensures
        v@ == esc_clear_screen(),
{
    let v: Vec<u8> = vec![27u8, 91u8, 50u8, 74u8];
    proof {
        assert(v@ =~= esc_clear_screen());
    }
    v
}

/// A carriage return and newline, ending one screen row.
pub open spec fn crnl() -> Seq<u8> {
    seq![13u8, 10u8]
}

/// Builds `crnl` as bytes.
pub fn crnl_vec() -> (v: Vec<u8>)
    ensures
        v@ == crnl(),
{
    let v: Vec<u8> = vec![13u8, 10u8];
    proof {
        assert(v@ =~= crnl());
    }
    v
}

/// The welcome banner shown over an empty, unmodified buffer.
pub open spec fn welcome_text() -> Seq<u8> {
    seq![82u8, 111u8, 110u8, 116u8, 111u8, 32u8, 101u8, 100u8, 105u8, 116u8, 111u8, 114u8, 32u8, 45u8, 45u8, 32u8, 118u8, 101u8, 114u8, 115u8, 105u8, 111u8, 110u8, 32u8, 48u8, 46u8, 48u8, 46u8, 49u8]
}

/// Builds `welcome_text` as bytes.
pub fn welcome_vec() -> (v: Vec<u8>)
    ensures
        v@ == welcome_text(),
{
    let v: Vec<u8> = vec![82u8, 111u8, 110u8, 116u8, 111u8, 32u8, 101u8, 100u8, 105u8, 116u8, 111u8, 114u8, 32u8, 45u8, 45u8, 32u8, 118u8, 101u8, 114u8, 115u8, 105u8, 111u8, 110u8, 32u8, 48u8, 46u8, 48u8, 46u8, 49u8];
    proof {
        assert(v@ =~= welcome_text());
    }
    v
}

/// The startup help line.
pub open spec fn help_text() -> Seq<u8> {
    seq![72u8, 69u8, 76u8, 80u8, 58u8, 32u8, 67u8, 116u8, 114u8, 108u8, 45u8, 83u8, 32u8, 61u8, 32u8, 115u8, 97u8, 118u8, 101u8, 32u8, 124u8, 32u8, 67u8, 116u8, 114u8, 108u8, 45u8, 81u8, 32u8, 61u8, 32u8, 113u8, 117u8, 105u8, 116u8]
}

/// Builds `help_text` as bytes.
pub fn help_vec() -> (v: Vec<u8>)
    ensures
        v@ == help_text(),
{
    let v: Vec<u8> = vec![72u8, 69u8, 76u8, 80u8, 58u8, 32u8, 67u8, 116u8, 114u8, 108u8, 45u8, 83u8, 32u8, 61u8, 32u8, 115u8, 97u8, 118u8, 101u8, 32u8, 124u8, 32u8, 67u8, 116u8, 114u8, 108u8, 45u8, 81u8, 32u8, 61u8, 32u8, 113u8, 117u8, 105u8, 116u8];
    proof {
        assert(v@ =~= help_text());
    }
    v
}

/// The quit warning up to the remaining press count.
pub open spec fn warn_prefix_text() -> Seq<u8> {
    seq![87u8, 65u8, 82u8, 78u8, 73u8, 78u8, 71u8, 33u8, 33u8, 33u8, 32u8, 70u8, 105u8, 108u8, 101u8, 32u8, 104u8, 97u8, 115u8, 32u8, 117u8, 110u8, 115u8, 97u8, 118u8, 101u8, 100u8, 32u8, 99u8, 104u8, 97u8, 110u8, 103u8, 101u8, 115u8, 46u8, 32u8, 80u8, 114u8, 101u8, 115u8, 115u8, 32u8, 67u8, 116u8, 114u8, 108u8, 45u8, 81u8, 32u8]
}

/// Builds `warn_prefix_text` as bytes.
pub fn warn_prefix_vec() -> (v: Vec<u8>)
    ensures
        v@ == warn_prefix_text(),
{
    let v: Vec<u8> = vec![87u8, 65u8, 82u8, 78u8, 73u8, 78u8, 71u8, 33u8, 33u8, 33u8, 32u8, 70u8, 105u8, 108u8, 101u8, 32u8, 104u8, 97u8, 115u8, 32u8, 117u8, 110u8, 115u8, 97u8, 118u8, 101u8, 100u8, 32u8, 99u8, 104u8, 97u8, 110u8, 103u8, 101u8, 115u8, 46u8, 32u8, 80u8, 114u8, 101u8, 115u8, 115u8, 32u8, 67u8, 116u8, 114u8, 108u8, 45u8, 81u8, 32u8];
    proof {
        assert(v@ =~= warn_prefix_text());
    }
    v
}

/// The quit warning after the remaining press count.
pub open spec fn warn_suffix_text() -> Seq<u8> {
    seq![32u8, 109u8, 111u8, 114u8, 101u8, 32u8, 116u8, 105u8, 109u8, 101u8, 115u8, 32u8, 116u8, 111u8, 32u8, 113u8, 117u8, 105u8, 116u8, 46u8]
}

/// Builds `warn_suffix_text` as bytes.
pub fn warn_suffix_vec() -> (v: Vec<u8>)
    ensures
        v@ == warn_suffix_text(),
{
    let v: Vec<u8> = vec![32u8, 109u8, 111u8, 114u8, 101u8, 32u8, 116u8, 105u8, 109u8, 101u8, 115u8, 32u8, 116u8, 111u8, 32u8, 113u8, 117u8, 105u8, 116u8, 46u8];
    proof {
        assert(v@ =~= warn_suffix_text());
    }
    v
}

/// Shown when a save-as prompt is cancelled.
pub open spec fn save_aborted_text() -> Seq<u8> {
    seq![83u8, 97u8, 118u8, 101u8, 32u8, 97u8, 98u8, 111u8, 114u8, 116u8, 101u8, 100u8]
}

/// Builds `save_aborted_text` as bytes.
pub fn save_aborted_vec() -> (v: Vec<u8>)
    ensures
        v@ == save_aborted_text(),
{
    let v: Vec<u8> = vec![83u8, 97u8, 118u8, 101u8, 32u8, 97u8, 98u8, 111u8, 114u8, 116u8, 101u8, 100u8];
    proof {
        assert(v@ =~= save_aborted_text());
    }
    v
}

/// The save confirmation after the byte count.
pub open spec fn bytes_suffix_text() -> Seq<u8> {
    seq![32u8, 98u8, 121u8, 116u8, 101u8, 115u8, 32u8, 119u8, 114u8, 105u8, 116u8, 116u8, 101u8, 110u8, 32u8, 116u8, 111u8, 32u8, 100u8, 105u8, 115u8, 107u8]
}

/// Builds `bytes_suffix_text` as bytes.
pub fn bytes_suffix_vec() -> (v: Vec<u8>)
    ensures
        v@ == bytes_suffix_text(),
{
    let v: Vec<u8> = vec![32u8, 98u8, 121u8, 116u8, 101u8, 115u8, 32u8, 119u8, 114u8, 105u8, 116u8, 116u8, 101u8, 110u8, 32u8, 116u8, 111u8, 32u8, 100u8, 105u8, 115u8, 107u8];
    proof {
        assert(v@ =~= bytes_suffix_text());
    }
    v
}

/// Shown when writing the file failed.
pub open spec fn save_failed_text() -> Seq<u8> {
    seq![67u8, 97u8, 110u8, 39u8, 116u8, 32u8, 115u8, 97u8, 118u8, 101u8, 33u8, 32u8, 73u8, 47u8, 79u8, 32u8, 101u8, 114u8, 114u8, 111u8, 114u8]
}

/// Builds `save_failed_text` as bytes.
pub fn save_failed_vec() -> (v: Vec<u8>)
    ensures
        v@ == save_failed_text(),
{
    let v: Vec<u8> = vec![67u8, 97u8, 110u8, 39u8, 116u8, 32u8, 115u8, 97u8, 118u8, 101u8, 33u8, 32u8, 73u8, 47u8, 79u8, 32u8, 101u8, 114u8, 114u8, 111u8, 114u8];
    proof {
        assert(v@ =~= save_failed_text());
    }
    v
}

/// Stands in for a missing filename in the status bar.
pub open spec fn no_name_text() -> Seq<u8> {
    seq![91u8, 78u8, 111u8, 32u8, 78u8, 97u8, 109u8, 101u8, 93u8]
}

/// Builds `no_name_text` as bytes.
pub fn no_name_vec() -> (v: Vec<u8>)
    ensures
        v@ == no_name_text(),
{
    let v: Vec<u8> = vec![91u8, 78u8, 111u8, 32u8, 78u8, 97u8, 109u8, 101u8, 93u8];
    proof {
        assert(v@ =~= no_name_text());
    }
    v
}

/// Separates the filename from the row count.
pub open spec fn sep_text() -> Seq<u8> {
    seq![32u8, 45u8, 32u8]
}

/// Builds `sep_text` as bytes.
pub fn sep_vec() -> (v: Vec<u8>)
    ensures
        v@ == sep_text(),
{
    let v: Vec<u8> = vec![32u8, 45u8, 32u8];
    proof {
        assert(v@ =~= sep_text());
    }
    v
}

/// Follows the row count in the status bar.
pub open spec fn lines_suffix_text() -> Seq<u8> {
    seq![32u8, 108u8, 105u8, 110u8, 101u8, 115u8]
}

/// Builds `lines_suffix_text` as bytes.
pub fn lines_suffix_vec() -> (v: Vec<u8>)
    ensures
        v@ == lines_suffix_text(),
{
    let v: Vec<u8> = vec![32u8, 108u8, 105u8, 110u8, 101u8, 115u8];
    proof {
        assert(v@ =~= lines_suffix_text());
    }
    v
}

/// Marks unsaved changes in the status bar.
pub open spec fn modified_text() -> Seq<u8> {
    seq![32u8, 40u8, 109u8, 111u8, 100u8, 105u8, 102u8, 105u8, 101u8, 100u8, 41u8]
}

/// Builds `modified_text` as bytes.
pub fn modified_vec() -> (v: Vec<u8>)
    ensures
        v@ == modified_text(),
{
    let v: Vec<u8> = vec![32u8, 40u8, 109u8, 111u8, 100u8, 105u8, 102u8, 105u8, 101u8, 100u8, 41u8];
    proof {
        assert(v@ =~= modified_text());
    }
    v
}

/// The save-as prompt up to the typed name.
pub open spec fn save_as_prefix_text() -> Seq<u8> {
    seq![83u8, 97u8, 118u8, 101u8, 32u8, 97u8, 115u8, 58u8, 32u8]
}

/// Builds `save_as_prefix_text` as bytes.
pub fn save_as_prefix_vec() -> (v: Vec<u8>)
    ensures
        v@ == save_as_prefix_text(),
{
    let v: Vec<u8> = vec![83u8, 97u8, 118u8, 101u8, 32u8, 97u8, 115u8, 58u8, 32u8];
    proof {
        assert(v@ =~= save_as_prefix_text());
    }
    v
}

/// The save-as prompt after the typed name.
pub open spec fn save_as_suffix_text() -> Seq<u8> {
    seq![32u8, 40u8, 69u8, 83u8, 67u8, 32u8, 116u8, 111u8, 32u8, 99u8, 97u8, 110u8, 99u8, 101u8, 108u8, 41u8]
}

/// Builds `save_as_suffix_text` as bytes.
pub fn save_as_suffix_vec() -> (v: Vec<u8>)
    ensures
        v@ == save_as_suffix_text(),
{
    let v: Vec<u8> = vec![32u8, 40u8, 69u8, 83u8, 67u8, 32u8, 116u8, 111u8, 32u8, 99u8, 97u8, 110u8, 99u8, 101u8, 108u8, 41u8];
    proof {
        assert(v@ =~= save_as_suffix_text());
    }
    v
}
/// The decimal digits of `n`, most significant first.
pub open spec fn dec_of(n: nat) -> Seq<u8>
    decreases n,
{
    if n < 10 {
        seq![(48 + n) as u8]
    } else {
        dec_of(n / 10).push((48 + n % 10) as u8)
    }
}

/// Appends the decimal digits of `n`.
pub fn push_decimal(out: &mut Vec<u8>, n: usize)
    ensures
        final(out)@ == old(out)@ + dec_of(n as nat),
    decreases n,
{
    if n < 10 {
        out.push(48 + n as u8);
        proof {
            assert(out@ =~= old(out)@ + dec_of(n as nat));
        }
    } else {
        push_decimal(out, n / 10);
        out.push(48 + (n % 10) as u8);
        proof {
            assert(out@ =~= old(out)@ + dec_of(n as nat));
        }
    }
}

/// Appends `n` spaces.
fn push_spaces(out: &mut Vec<u8>, n: usize)
    ensures
        final(out)@ == old(out)@ + spaces(n as int),
{
    let mut j: usize = 0;
    proof {
        assert(out@ =~= old(out)@ + spaces(0));
    }
    while j < n
        invariant
            j <= n,
            out@ == old(out)@ + spaces(j as int),
        decreases n - j,
    {
        out.push(32);
        proof {
            assert(old(out)@ + spaces(j as int) + seq![32u8] =~= old(out)@ + spaces(j as int + 1));
        }
        j += 1;
    }
}

/// Appends `src[lo..hi]`.
fn push_subrange(out: &mut Vec<u8>, src: &Vec<u8>, lo: usize, hi: usize)
    requires
        lo <= hi <= src@.len(),
    ensures
        final(out)@ == old(out)@ + src@.subrange(lo as int, hi as int),
{
    let mut i: usize = lo;
    proof {
        assert(out@ =~= old(out)@ + src@.subrange(lo as int, lo as int));
    }
    while i < hi
        invariant
            lo <= i <= hi <= src@.len(),
            out@ == old(out)@ + src@.subrange(lo as int, i as int),
        decreases hi - i,
    {
        out.push(src[i]);
        proof {
            assert(old(out)@ + src@.subrange(lo as int, i as int) + seq![src@[i as int]] =~= old(
                out,
            )@ + src@.subrange(lo as int, i as int + 1));
        }
        i += 1;
    }
}

/// Appends the first `m` bytes of `src`.
fn push_prefix(out: &mut Vec<u8>, src: &Vec<u8>, m: usize)
    requires
        m <= src@.len(),
    ensures
        final(out)@ == old(out)@ + src@.take(m as int),
{
    push_subrange(out, src, 0, m);
    proof {
        assert(src@.subrange(0, m as int) =~= src@.take(m as int));
    }
}

/// The part of a rendered row inside the window `[off, off + width)`, in
/// render coordinates.
pub open spec fn visible_slice(r: Seq<u8>, off: int, width: int) -> Seq<u8> {
    let lo = if off <= r.len() {
        off
    } else {
        r.len() as int
    };
    let hi = if off + width <= r.len() {
        off + width
    } else {
        r.len() as int
    };
    r.subrange(lo, hi)
}

/// The welcome banner line: a tilde, padding that centers the banner text,
/// and the text itself, cut down to the screen width.
pub open spec fn welcome_line(cols: int) -> Seq<u8> {
    let w = welcome_text();
    let wl = if w.len() <= cols {
        w.len() as int
    } else {
        cols
    };
    let padding = (cols - wl) / 2;
    (if padding > 0 {
        seq![126u8] + spaces(padding - 1)
    } else {
        Seq::empty()
    }) + w.take(wl)
}

/// The text part of screen row `y`: a slice of the rendered buffer row, the
/// welcome banner over an empty unmodified buffer, or a tilde filler.
pub open spec fn row_line(s: EditSession, y: int) -> Seq<u8> {
    let filerow = y + s.viewport.row_offset as int;
    if filerow < s.buf@.len() {
        visible_slice(
            render_of(s.buf@[filerow]),
            s.viewport.col_offset as int,
            s.viewport.screen_cols as int,
        )
    } else if s.buf@.len() == 0 && !s.dirty && y == s.viewport.screen_rows as int / 3 {
        welcome_line(s.viewport.screen_cols as int)
    } else {
        seq![126u8]
    }
}

/// The first `y` screen rows: each row's text, an erase-to-end, and a line
/// break.
pub open spec fn rows_section(s: EditSession, y: int) -> Seq<u8>
    decreases y,
{
    if y <= 0 {
        Seq::empty()
    } else {
        rows_section(s, y - 1) + row_line(s, y - 1) + esc_erase_line_end() + crnl()
    }
}

/// The filename as the status bar shows it: cut to 20 bytes, with a stand-in
/// when there is none.
pub open spec fn fname_display(s: EditSession) -> Seq<u8> {
    match s.filename {
        Some(f) => if f@.len() == 0 {
            no_name_text()
        } else if f@.len() <= 20 {
            f@
        } else {
            f@.take(20)
        },
        None => no_name_text(),
    }
}

/// The left half of the status bar: filename, row count, modified marker.
pub open spec fn status_left(s: EditSession) -> Seq<u8> {
    fname_display(s) + sep_text() + dec_of(s.buf@.len()) + lines_suffix_text() + (if s.dirty {
        modified_text()
    } else {
        Seq::empty()
    })
}

/// The right half of the status bar: current row over total rows.
pub open spec fn status_right(s: EditSession) -> Seq<u8> {
    dec_of((s.cursor_y + 1) as nat) + seq![47u8] + dec_of(s.buf@.len())
}

/// The status bar content, exactly as wide as the screen: the left half,
/// then padding, then the right half right-justified; whichever half does
/// not fit is cut.
pub open spec fn status_content(s: EditSession) -> Seq<u8> {
    let cols = s.viewport.screen_cols as int;
    let l = status_left(s);
    let r = status_right(s);
    if l.len() >= cols {
        l.take(cols)
    } else if l.len() + r.len() <= cols {
        l + spaces(cols - l.len() - r.len()) + r
    } else {
        l + spaces(cols - l.len())
    }
}

/// The status bar: inverted colors around its content and a line break.
pub open spec fn status_bar(s: EditSession) -> Seq<u8> {
    esc_invert() + esc_clear_line() + status_content(s) + crnl() + esc_reset_color()
}

/// The text for the message bar: the transient status message, or the
/// save-as prompt with the name typed so far while prompting.
pub open spec fn status_text(msg: StatusMsg) -> Seq<u8> {
    match msg {
        StatusMsg::Cleared => Seq::empty(),
        StatusMsg::Help => help_text(),
        StatusMsg::QuitWarning(n) => warn_prefix_text() + dec_of(n as nat) + warn_suffix_text(),
        StatusMsg::SaveAborted => save_aborted_text(),
        StatusMsg::BytesWritten(n) => dec_of(n as nat) + bytes_suffix_text(),
        StatusMsg::SaveFailed => save_failed_text(),
    }
}

/// See `status_text`; prompting overrides the stored message.
pub open spec fn message_text(s: EditSession) -> Seq<u8> {
    if s.mode == Mode::Prompting {
        save_as_prefix_text() + s.prompt_buf@ + save_as_suffix_text()
    } else {
        status_text(s.status)
    }
}

/// `t` cut down to width `w`.
pub open spec fn truncated(t: Seq<u8>, w: int) -> Seq<u8> {
    if t.len() <= w {
        t
    } else {
        t.take(w)
    }
}

/// The message bar: a cleared line, then the message when it is shown.
pub open spec fn message_bar(s: EditSession, show_message: bool) -> Seq<u8> {
    esc_clear_line() + (if show_message {
        truncated(message_text(s), s.viewport.screen_cols as int)
    } else {
        Seq::empty()
    })
}

/// The escape sequence that puts the cursor at its screen position, 1-based:
/// its file coordinates taken through the render and scroll mapping.
pub open spec fn cursor_pos_seq(s: EditSession) -> Seq<u8> {
    seq![27u8, 91u8] + dec_of((s.cursor_y - s.viewport.row_offset + 1) as nat) + seq![59u8]
        + dec_of((s.render_x - s.viewport.col_offset + 1) as nat) + seq![72u8]
}

/// One whole frame.
pub open spec fn spec_frame(s: EditSession, show_message: bool) -> Seq<u8> {
    esc_hide_cursor() + esc_cursor_home() + rows_section(s, s.viewport.screen_rows as int)
        + status_bar(s) + message_bar(s, show_message) + cursor_pos_seq(s) + esc_show_cursor()
}

/// Builds `status_text` as bytes.
pub fn status_text_vec(msg: &StatusMsg) -> (v: Vec<u8>)
    ensures
        v@ == status_text(*msg),
{
    match msg {
        StatusMsg::Cleared => {
            let v: Vec<u8> = Vec::new();
            proof {
                assert(v@ =~= status_text(*msg));
            }
            v
        },
        StatusMsg::Help => help_vec(),
        StatusMsg::QuitWarning(n) => {
            let mut v = warn_prefix_vec();
            push_decimal(&mut v, *n as usize);
            let t = warn_suffix_vec();
            v.extend_from_slice(t.as_slice());
            v
        },
        StatusMsg::SaveAborted => save_aborted_vec(),
        StatusMsg::BytesWritten(n) => {
            let mut v: Vec<u8> = Vec::new();
            push_decimal(&mut v, *n);
            let t = bytes_suffix_vec();
            v.extend_from_slice(t.as_slice());
            proof {
                assert(v@ =~= status_text(*msg));
            }
            v
        },
        StatusMsg::SaveFailed => save_failed_vec(),
    }
}

/// Builds `message_text` as bytes.
pub fn message_text_vec(s: &EditSession) -> (v: Vec<u8>)
    ensures
        v@ == message_text(*s),
{
    if s.mode == Mode::Prompting {
        let mut v = save_as_prefix_vec();
        v.extend_from_slice(s.prompt_buf.as_slice());
        let t = save_as_suffix_vec();
        v.extend_from_slice(t.as_slice());
        v
    } else {
        status_text_vec(&s.status)
    }
}

/// Builds `status_content` as bytes.
fn status_content_vec(s: &EditSession) -> (v: Vec<u8>)
    requires
        s.cursor_y < usize::MAX,
    ensures
        v@ == status_content(*s),
{
    let cols = s.viewport.screen_cols;
    let mut left: Vec<u8> = Vec::new();
    match &s.filename {
        Some(f) => {
            if f.len() == 0 {
                let t = no_name_vec();
                left.extend_from_slice(t.as_slice());
            } else {
                let m = if f.len() <= 20 {
                    f.len()
                } else {
                    20
                };
                push_prefix(&mut left, f, m);
                proof {
                    if f@.len() <= 20 {
                        assert(f@.take(f@.len() as int) =~= f@);
                    }
                }
            }
        },
        None => {
            let t = no_name_vec();
            left.extend_from_slice(t.as_slice());
        },
    }
    let t = sep_vec();
    left.extend_from_slice(t.as_slice());
    push_decimal(&mut left, s.buf.num_rows());
    let t = lines_suffix_vec();
    left.extend_from_slice(t.as_slice());
    if s.dirty {
        let t = modified_vec();
        left.extend_from_slice(t.as_slice());
    }
    proof {
        assert(left@ =~= status_left(*s));
    }
    let mut right: Vec<u8> = Vec::new();
    push_decimal(&mut right, s.cursor_y + 1);
    right.push(47);
    push_decimal(&mut right, s.buf.num_rows());
    proof {
        assert(right@ =~= status_right(*s));
    }
    let mut v: Vec<u8> = Vec::new();
    if left.len() >= cols {
        push_prefix(&mut v, &left, cols);
        proof {
            assert(v@ =~= status_content(*s));
        }
    } else {
        v.extend_from_slice(left.as_slice());
        let rem = cols - left.len();
        if right.len() <= rem {
            push_spaces(&mut v, rem - right.len());
            v.extend_from_slice(right.as_slice());
        } else {
            push_spaces(&mut v, rem);
        }
        proof {
            assert(v@ =~= status_content(*s));
        }
    }
    v
}

/// Appends the text part of screen row `y`.
fn push_row_line(out: &mut Vec<u8>, s: &EditSession, y: usize)
    requires
        s.wf(),
        y < s.viewport.screen_rows,
    ensures
        final(out)@ == old(out)@ + row_line(*s, y as int),
{
    let n = s.buf.num_rows();
    let ro = s.viewport.row_offset;
    if ro <= n && y < n - ro {
        let filerow = ro + y;
        let r = s.buf.row(filerow);
        let rl = r.rendered.len();
        let co = s.viewport.col_offset;
        let cols = s.viewport.screen_cols;
        let lo = if co <= rl {
            co
        } else {
            rl
        };
        let rem = rl - lo;
        let w2 = if cols <= rem {
            cols
        } else {
            rem
        };
        let hi = lo + w2;
        push_subrange(out, &r.rendered, lo, hi);
        proof {
            assert(r.rendered@.subrange(lo as int, hi as int) =~= visible_slice(
                render_of(s.buf@[filerow as int]),
                co as int,
                cols as int,
            ));
        }
    } else if n == 0 && !s.dirty && y == s.viewport.screen_rows / 3 {
        let cols = s.viewport.screen_cols;
        let ghost pre = out@;
        let w = welcome_vec();
        let wl = if w.len() <= cols {
            w.len()
        } else {
            cols
        };
        let padding = (cols - wl) / 2;
        if padding > 0 {
            out.push(126);
            push_spaces(out, padding - 1);
        }
        push_prefix(out, &w, wl);
        proof {
            assert(out@ =~= pre + welcome_line(cols as int));
        }
    } else {
        out.push(126);
        proof {
            assert(out@ =~= old(out)@ + seq![126u8]);
        }
    }
}

/// Lays out one whole frame for the given session state. Call it after
/// `recompute_scroll`, so that the cursor lies inside the window.
#[verifier::rlimit(100)]
pub fn render_frame(s: &EditSession, show_message: bool) -> (out: Vec<u8>)
    requires
        s.wf(),
        s.viewport.row_offset <= s.cursor_y < s.viewport.row_offset + s.viewport.screen_rows,
        s.viewport.col_offset <= s.render_x < s.viewport.col_offset + s.viewport.screen_cols,
        s.cursor_y < usize::MAX,
    ensures
        out@ == spec_frame(*s, show_message),
{
    let mut out: Vec<u8> = Vec::new();
    let t = esc_hide_cursor_vec();
    out.extend_from_slice(t.as_slice());
    let t = esc_cursor_home_vec();
    out.extend_from_slice(t.as_slice());
    let ghost head = out@;
    proof {
        assert(head =~= esc_hide_cursor() + esc_cursor_home());
    }

    // the text rows
    let rows = s.viewport.screen_rows;
    let mut y: usize = 0;
    while y < rows
        invariant
            y <= rows,
            rows == s.viewport.screen_rows,
            s.wf(),
            s.viewport.row_offset <= s.cursor_y < s.viewport.row_offset + s.viewport.screen_rows,
            s.viewport.col_offset <= s.render_x < s.viewport.col_offset + s.viewport.screen_cols,
            s.cursor_y < usize::MAX,
            out@ == head + rows_section(*s, y as int),
        decreases rows - y,
    {
        push_row_line(&mut out, s, y);
        let t = esc_erase_line_end_vec();
        out.extend_from_slice(t.as_slice());
        let t = crnl_vec();
        out.extend_from_slice(t.as_slice());
        proof {
            assert(out@ =~= head + rows_section(*s, y as int + 1));
        }
        y += 1;
    }

    // the status bar
    let ghost with_rows = out@;
    let t = esc_invert_vec();
    out.extend_from_slice(t.as_slice());
    let t = esc_clear_line_vec();
    out.extend_from_slice(t.as_slice());
    let t = status_content_vec(s);
    out.extend_from_slice(t.as_slice());
    let t = crnl_vec();
    out.extend_from_slice(t.as_slice());
    let t = esc_reset_color_vec();
    out.extend_from_slice(t.as_slice());
    proof {
        assert(out@ =~= with_rows + status_bar(*s));
    }

    // the message bar
    let ghost with_status = out@;
    let t = esc_clear_line_vec();
    out.extend_from_slice(t.as_slice());
    if show_message {
        let msg = message_text_vec(s);
        let cols = s.viewport.screen_cols;
        let m = if msg.len() <= cols {
            msg.len()
        } else {
            cols
        };
        push_prefix(&mut out, &msg, m);
        proof {
            assert(msg@.take(msg@.len() as int) =~= msg@);
        }
    }
    proof {
        assert(out@ =~= with_status + message_bar(*s, show_message));
    }

    // place and show the cursor
    let ghost with_message = out@;
    out.push(27);
    out.push(91);
    push_decimal(&mut out, s.cursor_y - s.viewport.row_offset + 1);
    out.push(59);
    push_decimal(&mut out, s.render_x - s.viewport.col_offset + 1);
    out.push(72);
    proof {
        assert(out@ =~= with_message + cursor_pos_seq(*s));
    }
    let t = esc_show_cursor_vec();
    out.extend_from_slice(t.as_slice());
    proof {
        assert(out@ =~= spec_frame(*s, show_message));
    }
    out
}

} // verus!
