//! Mapping between file, render and screen coordinates.
//!
//! A cursor position counts raw content bytes (file coordinates). On screen,
//! tabs occupy several cells, so layout works in render coordinates; the
//! mapping here uses the very same tab-expansion rule as the rows' rendered
//! form, so the two can never disagree. The viewport keeps the top-left
//! corner of the visible window and scrolls it just far enough to keep the
//! cursor inside.

use vstd::prelude::*;
use crate::row::{render_from, render_of, spaces, tab_width, Row, TAB, TAB_STOP};
use crate::row::{lemma_render_decompose, lemma_render_prefix_len, lemma_render_take_step};

verus! {

/// The render column at which the `cx`-th content character begins, with
/// `cx` clamped to the row length: the length of the rendered form of the
/// first `cx` characters.
pub open spec fn render_col(s: Seq<u8>, cx: int) -> int {
    render_of(s.take(if cx <= s.len() { cx } else { s.len() as int })).len() as int
}

/// The render column computed for file column `cx` is exactly the column at
/// which the `cx`-th content character's expansion begins in the row's
/// rendered form: the rendered row decomposes there. The column mapping and
/// the rendered form therefore never disagree.
pub proof fn lemma_render_col_agrees(s: Seq<u8>, cx: int)
    requires
        0 <= cx <= s.len(),
    ensures
        render_of(s) == render_of(s.take(cx)) + render_from(s.skip(cx), render_col(s, cx)),
        render_col(s, cx) == render_of(s.take(cx)).len(),
        render_col(s, cx) <= render_of(s).len(),
{
    lemma_render_decompose(s, cx);
}

/// Walks the row's content up to file column `cx` (clamped to the row
/// length), accumulating the tab-expansion rule, and returns the render
/// column.
pub fn file_col_to_render_col(row: &Row, cx: usize) -> (rx: usize)
    requires
        row.wf(),
    ensures
        rx as int == render_col(row.content@, cx as int),
{
    let cap = row.rendered.len();
    proof {
        assert(cap == render_of(row.content@).len());
    }
    let n = if cx <= row.content.len() {
        cx
    } else {
        row.content.len()
    };
    let mut rx: usize = 0;
    let mut i: usize = 0;
    proof {
        assert(row.content@.take(0) =~= Seq::<u8>::empty());
    }
    while i < n
        invariant
            row.wf(),
            n <= row.content@.len(),
            i <= n,
            cap == render_of(row.content@).len(),
            rx == render_of(row.content@.take(i as int)).len(),
        decreases n - i,
    {
        proof {
            lemma_render_take_step(row.content@, i as int);
            lemma_render_prefix_len(row.content@, i as int + 1);
        }
        let c = row.content[i];
        if c == TAB {
            rx = rx + (TAB_STOP - rx % TAB_STOP);
        } else {
            rx = rx + 1;
        }
        i += 1;
    }
    rx
}

/// Where an offset lands after scrolling just far enough that `pos` lies in
/// the visible window `[offset, offset + dim)`: scroll back to `pos` when it
/// is before the window, forward by exactly the deficit when it is past it,
/// and not at all otherwise.
pub open spec fn scrolled_off(off: int, dim: int, pos: int) -> int {
    if pos < off {
        pos
    } else if pos >= off + dim {
        pos - dim + 1
    } else {
        off
    }
}

/// Scrolling is minimal and idempotent: once an offset has been adjusted for
/// a position, adjusting it again for the same position changes nothing.
pub proof fn lemma_scroll_idempotent(off: int, dim: int, pos: int)
    requires
        dim >= 1,
        0 <= pos,
    ensures
        scrolled_off(scrolled_off(off, dim, pos), dim, pos) == scrolled_off(off, dim, pos),
{
}

/// After scrolling, the position lies inside the window.
pub proof fn lemma_scroll_contains(off: int, dim: int, pos: int)
    requires
        dim >= 1,
        0 <= pos,
    ensures
        scrolled_off(off, dim, pos) <= pos < scrolled_off(off, dim, pos) + dim,
{
}

/// Whether a byte is an ASCII decimal digit.
pub open spec fn is_digit(b: u8) -> bool {
    48 <= b <= 57
}

/// The end of the run of digit bytes starting at `i`: the first index at or
/// after `i` that is past the end or holds a non-digit.
pub open spec fn digits_end(s: Seq<u8>, i: int) -> int
    decreases s.len() - i,
    when 0 <= i <= s.len()
{
    if i < s.len() && is_digit(s[i]) {
        digits_end(s, i + 1)
    } else {
        i
    }
}

/// The decimal value of the digit bytes `s[i..j]`.
pub open spec fn num_val(s: Seq<u8>, i: int, j: int) -> int
    decreases j - i,
    when i <= j
{
    if i >= j {
        0
    } else {
        num_val(s, i, j - 1) * 10 + (s[j - 1] - 48)
    }
}

/// Everything from `i` up to `digits_end` is a digit, and the run stops at a
/// non-digit or the end.
pub proof fn lemma_digits_end(s: Seq<u8>, i: int)
    requires
        0 <= i <= s.len(),
    ensures
        i <= digits_end(s, i) <= s.len(),
        forall|j: int| #![trigger s[j]] i <= j < digits_end(s, i) ==> is_digit(s[j]),
        digits_end(s, i) < s.len() ==> !is_digit(s[digits_end(s, i)]),
    decreases s.len() - i,
{
    if i < s.len() && is_digit(s[i]) {
        lemma_digits_end(s, i + 1);
    }
}

/// The value of a digit run never shrinks as the run grows.
pub proof fn lemma_num_val_mono(s: Seq<u8>, i: int, j: int, k: int)
    requires
        0 <= i <= j <= k <= s.len(),
        forall|m: int| #![trigger s[m]] i <= m < k ==> is_digit(s[m]),
    ensures
        0 <= num_val(s, i, j) <= num_val(s, i, k),
    decreases k - j,
{
    if j == k {
        lemma_num_val_nonneg(s, i, j);
    } else {
        lemma_num_val_mono(s, i, j, k - 1);
    }
}

/// The value of a digit run is not negative.
pub proof fn lemma_num_val_nonneg(s: Seq<u8>, i: int, j: int)
    requires
        0 <= i <= j <= s.len(),
        forall|m: int| #![trigger s[m]] i <= m < j ==> is_digit(s[m]),
    ensures
        num_val(s, i, j) >= 0,
    decreases j - i,
{
    if i < j {
        lemma_num_val_nonneg(s, i, j - 1);
    }
}

/// What a cursor-position report parses to: after the two lead-in bytes, a
/// run of digits, one separator byte, and a second run of digits give the
/// row and column counts; a missing run or a count over `u16::MAX` is a
/// malformed report.
pub open spec fn spec_parse_report(s: Seq<u8>) -> Option<(u16, u16)> {
    if s.len() < 2 {
        None
    } else {
        let e1 = digits_end(s, 2);
        if e1 == 2 || e1 >= s.len() {
            None
        } else {
            let b = e1 + 1;
            let e2 = digits_end(s, b);
            if e2 == b {
                None
            } else {
                let v1 = num_val(s, 2, e1);
                let v2 = num_val(s, b, e2);
                if v1 > 65535 || v2 > 65535 {
                    None
                } else {
                    Some((v1 as u16, v2 as u16))
                }
            }
        }
    }
}

/// Parses a terminal cursor-position report into its row and column counts:
/// two decimal numbers after the lead-in, delimited by any non-digit bytes.
pub fn parse_cursor_report(s: &[u8]) -> (r: Option<(u16, u16)>)
    ensures
        r == spec_parse_report(s@),
{
    if s.len() < 2 {
        return None;
    }
    proof {
        lemma_digits_end(s@, 2);
    }
    let ghost e1 = digits_end(s@, 2);
    let mut i: usize = 2;
    let mut rows: u64 = 0;
    while i < s.len() && 48 <= s[i] && s[i] <= 57
        invariant
            2 <= i <= e1 <= s@.len(),
            e1 == digits_end(s@, 2),
            forall|j: int| #![trigger s@[j]] 2 <= j < e1 ==> is_digit(s@[j]),
            e1 < s@.len() ==> !is_digit(s@[e1]),
            rows == num_val(s@, 2, i as int),
            rows <= 65535,
        decreases s@.len() - i,
    {
        rows = rows * 10 + (s[i] - 48) as u64;
        i += 1;
        if rows > 65535 {
            proof {
                lemma_num_val_mono(s@, 2, i as int, e1);
            }
            return None;
        }
    }
    proof {
        assert(i == e1);
    }
    if i == 2 {
        return None;
    }
    if i >= s.len() {
        return None;
    }
    let start2 = i + 1;
    proof {
        lemma_digits_end(s@, start2 as int);
    }
    let ghost e2 = digits_end(s@, start2 as int);
    let mut j: usize = start2;
    let mut cols: u64 = 0;
    while j < s.len() && 48 <= s[j] && s[j] <= 57
        invariant
            start2 <= j <= e2 <= s@.len(),
            start2 == i + 1,
            e2 == digits_end(s@, start2 as int),
            forall|m: int| #![trigger s@[m]] start2 <= m < e2 ==> is_digit(s@[m]),
            e2 < s@.len() ==> !is_digit(s@[e2]),
            cols == num_val(s@, start2 as int, j as int),
            cols <= 65535,
            2 < i < s@.len(),
            i as int == digits_end(s@, 2),
            forall|m: int| #![trigger s@[m]] 2 <= m < i ==> is_digit(s@[m]),
            rows == num_val(s@, 2, i as int),
            rows <= 65535,
        decreases s@.len() - j,
    {
        cols = cols * 10 + (s[j] - 48) as u64;
        j += 1;
        if cols > 65535 {
            proof {
                lemma_num_val_mono(s@, start2 as int, j as int, e2);
            }
            return None;
        }
    }
    proof {
        assert(j == e2);
    }
    if j == start2 {
        return None;
    }
    Some((rows as u16, cols as u16))
}

/// The top-left corner of the visible window and the screen dimensions.
pub struct Viewport {
    /// First visible row, in file coordinates.
    pub row_offset: usize,
    /// First visible column, in render coordinates.
    pub col_offset: usize,
    /// Number of text rows the screen shows.
    pub screen_rows: usize,
    /// Number of columns the screen shows.
    pub screen_cols: usize,
}

impl Viewport {
    /// The screen has at least one row and one column.
    pub open spec fn wf(self) -> bool {
        self.screen_rows >= 1 && self.screen_cols >= 1
    }

    /// Makes a viewport at the origin for a screen of the given size.
    pub fn new(screen_rows: usize, screen_cols: usize) -> (v: Viewport)
        requires
            screen_rows >= 1,
            screen_cols >= 1,
        ensures
            v.wf(),
            v.row_offset == 0,
            v.col_offset == 0,
            v.screen_rows == screen_rows,
            v.screen_cols == screen_cols,
    {
        Viewport { row_offset: 0, col_offset: 0, screen_rows, screen_cols }
    }

    /// Scrolls both offsets just far enough that the cursor, at row `cy` and
    /// render column `rx`, lies inside the visible window.
    pub fn scroll_to(&mut self, cy: usize, rx: usize)
        requires
            old(self).wf(),
        ensures
            final(self).wf(),
            final(self).row_offset as int == scrolled_off(
                old(self).row_offset as int,
                old(self).screen_rows as int,
                cy as int,
            ),
            final(self).col_offset as int == scrolled_off(
                old(self).col_offset as int,
                old(self).screen_cols as int,
                rx as int,
            ),
            final(self).screen_rows == old(self).screen_rows,
            final(self).screen_cols == old(self).screen_cols,
            final(self).row_offset <= cy < final(self).row_offset + final(self).screen_rows,
            final(self).col_offset <= rx < final(self).col_offset + final(self).screen_cols,
    {
        if cy < self.row_offset {
            self.row_offset = cy;
        } else if cy - self.row_offset >= self.screen_rows {
            self.row_offset = cy - self.screen_rows + 1;
        }
        if rx < self.col_offset {
            self.col_offset = rx;
        } else if rx - self.col_offset >= self.screen_cols {
            self.col_offset = rx - self.screen_cols + 1;
        }
    }
}

} // verus!
