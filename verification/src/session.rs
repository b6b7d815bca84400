//! The edit session: the state machine at the center of the editor.
//!
//! It owns the line buffer and cursor, tracks unsaved changes, and turns each
//! decoded key event into a state transition plus an action for the caller:
//! keep going, exit, or write the serialized buffer to disk. Saving without a
//! filename goes through a prompt collecting one; quitting with unsaved
//! changes takes repeated confirmation.

use vstd::prelude::*;
use crate::is_ctrl;
use crate::buffer::{text_of, LineBuffer};
use crate::keys::{Dir, Key};
use crate::viewport::{render_col, scrolled_off, file_col_to_render_col, lemma_scroll_idempotent, Viewport};

verus! {

/// How many times quit must be pressed in a row, with unsaved changes,
/// before the editor exits.
pub const QUIT_TIMES: u8 = 3;

/// The byte value of the Return key.
pub const KEY_RETURN: u8 = 13;

/// The control byte Ctrl-H, an alias for Backspace.
pub const KEY_CTRL_H: u8 = 8;

/// The control byte Ctrl-Q: quit.
pub const KEY_CTRL_Q: u8 = 17;

/// The control byte Ctrl-S: save.
pub const KEY_CTRL_S: u8 = 19;

/// The byte value of the Backspace key.
pub const KEY_BACKSPACE: u8 = 127;

/// The transient message shown in the message bar. How long it stays on
/// screen is the caller's concern; it never affects control flow.
#[derive(Clone, Copy, PartialEq, Eq, Debug, Structural)]
pub enum StatusMsg {
    /// No message.
    Cleared,
    /// The startup help line.
    Help,
    /// Unsaved changes: quit must be pressed this many more times.
    QuitWarning(u8),
    /// A save-as prompt was cancelled or confirmed empty.
    SaveAborted,
    /// A save succeeded and wrote this many bytes.
    BytesWritten(usize),
    /// A save failed; the buffer is untouched.
    SaveFailed,
}

/// Whether the session is editing or collecting a save-as filename.
#[derive(Clone, Copy, PartialEq, Eq, Debug, Structural)]
pub enum Mode {
    Normal,
    /// Collecting a filename; the text typed so far is in `prompt_buf`.
    Prompting,
}

/// What the caller must do after a key has been processed.
pub enum Action {
    /// Read the next key.
    Continue,
    /// Exit the editor.
    Quit,
    /// Write the carried bytes to the session's filename, then report the
    /// outcome through `save_finished`.
    Save(Vec<u8>),
}

/// The whole editor state threaded through every operation.
pub struct EditSession {
    /// The rows of the open file.
    pub buf: LineBuffer,
    /// Cursor column in file coordinates: an index into the current row's
    /// content.
    pub cursor_x: usize,
    /// Cursor row; may equal the row count, meaning "about to append".
    pub cursor_y: usize,
    /// Cursor column in render coordinates, kept by `recompute_scroll`.
    pub render_x: usize,
    /// The visible window.
    pub viewport: Viewport,
    /// Whether the buffer has unsaved changes.
    pub dirty: bool,
    /// Quit presses still required while dirty; always at least 1.
    pub quit_times: u8,
    /// The file the buffer belongs to, if any.
    pub filename: Option<Vec<u8>>,
    /// The transient status message.
    pub status: StatusMsg,
    /// Editing or prompting.
    pub mode: Mode,
    /// The save-as filename typed so far; meaningful while prompting.
    pub prompt_buf: Vec<u8>,
}

/// The length of row `y`, or 0 outside the buffer.
pub open spec fn row_len_at(rows: Seq<Seq<u8>>, y: int) -> int {
    if 0 <= y < rows.len() {
        rows[y].len() as int
    } else {
        0
    }
}

/// The cursor lies inside the buffer: on a row at a column no greater than
/// the row's length, or at column 0 one past the last row.
pub open spec fn cursor_ok(s: EditSession) -> bool {
    &&& s.cursor_y <= s.buf@.len()
    &&& (s.cursor_y < s.buf@.len() ==> s.cursor_x <= s.buf@[s.cursor_y as int].len())
    &&& (s.cursor_y == s.buf@.len() ==> s.cursor_x == 0)
}

impl EditSession {
    /// Rows rendered in sync, a nonempty screen, a cursor inside the buffer
    /// and a live quit counter.
    pub open spec fn wf(self) -> bool {
        &&& self.buf.wf()
        &&& self.viewport.wf()
        &&& cursor_ok(self)
        &&& 1 <= self.quit_times <= QUIT_TIMES
    }

    /// A fresh session over the given buffer: cursor and offsets at the
    /// origin, no unsaved changes, quit counter full.
    pub fn new(
        screen_rows: usize,
        screen_cols: usize,
        filename: Option<Vec<u8>>,
        buf: LineBuffer,
    ) -> (s: EditSession)
        requires
            screen_rows >= 1,
            screen_cols >= 1,
            buf.wf(),
        ensures
            s.wf(),
            s.buf == buf,
            s.cursor_x == 0,
            s.cursor_y == 0,
            s.render_x == 0,
            s.viewport.row_offset == 0,
            s.viewport.col_offset == 0,
            s.viewport.screen_rows == screen_rows,
            s.viewport.screen_cols == screen_cols,
            !s.dirty,
            s.quit_times == QUIT_TIMES,
            s.filename == filename,
            s.status == StatusMsg::Cleared,
            s.mode == Mode::Normal,
    {
        EditSession {
            buf,
            cursor_x: 0,
            cursor_y: 0,
            render_x: 0,
            viewport: Viewport::new(screen_rows, screen_cols),
            dirty: false,
            quit_times: QUIT_TIMES,
            filename,
            status: StatusMsg::Cleared,
            mode: Mode::Normal,
            prompt_buf: Vec::new(),
        }
    }

    /// Sets the status message.
    pub fn set_status(&mut self, msg: StatusMsg)
        ensures
            *final(self) == (EditSession { status: msg, ..*old(self) }),
    {
        self.status = msg;
    }
}

/// Only the cursor position may differ.
pub open spec fn same_but_cursor(pre: EditSession, post: EditSession) -> bool {
    post == (EditSession { cursor_x: post.cursor_x, cursor_y: post.cursor_y, ..pre })
}

/// Only the buffer, the cursor and the dirty flag may differ.
pub open spec fn same_but_edit(pre: EditSession, post: EditSession) -> bool {
    post == (EditSession {
        buf: post.buf,
        cursor_x: post.cursor_x,
        cursor_y: post.cursor_y,
        dirty: post.dirty,
        ..pre
    })
}

/// Where one cursor move lands: Left at column 0 wraps to the end of the
/// previous row, Right at the end of a row wraps to the start of the next,
/// vertical moves step one row, and the column is then clamped to the target
/// row's length.
pub open spec fn moved_once(rows: Seq<Seq<u8>>, cx: int, cy: int, dir: Dir) -> (int, int) {
    let n = rows.len() as int;
    let step = match dir {
        Dir::Up => if cy > 0 {
            (cx, cy - 1)
        } else {
            (cx, cy)
        },
        Dir::Down => if cy < n {
            (cx, cy + 1)
        } else {
            (cx, cy)
        },
        Dir::Left => if cx > 0 {
            (cx - 1, cy)
        } else if cy > 0 {
            (row_len_at(rows, cy - 1), cy - 1)
        } else {
            (cx, cy)
        },
        Dir::Right => if cy < n && cx < row_len_at(rows, cy) {
            (cx + 1, cy)
        } else if cy < n && cx == row_len_at(rows, cy) {
            (0, cy + 1)
        } else {
            (cx, cy)
        },
    };
    let limit = row_len_at(rows, step.1);
    (if step.0 <= limit {
        step.0
    } else {
        limit
    }, step.1)
}

/// Where `n` repeated cursor moves in the same direction land.
pub open spec fn moved_many(rows: Seq<Seq<u8>>, cx: int, cy: int, dir: Dir, n: nat) -> (int, int)
    decreases n,
{
    if n == 0 {
        (cx, cy)
    } else {
        let prev = moved_many(rows, cx, cy, dir, (n - 1) as nat);
        moved_once(rows, prev.0, prev.1, dir)
    }
}

/// The buffer after a character insertion at the cursor: a cursor one past
/// the last row first gets an empty row appended.
pub open spec fn rows_after_insert_char(rows: Seq<Seq<u8>>, cx: int, cy: int, c: u8) -> Seq<
    Seq<u8>,
> {
    let base = if cy == rows.len() {
        rows.push(Seq::empty())
    } else {
        rows
    };
    base.update(cy, base[cy].insert(cx, c))
}

/// The buffer after a delete-before-cursor: nothing at the very start or
/// below the last row, one character removed when the cursor is inside a
/// row, and a join with the previous row at column 0.
pub open spec fn rows_after_delete_char(rows: Seq<Seq<u8>>, cx: int, cy: int) -> Seq<Seq<u8>> {
    if cy == rows.len() || (cx == 0 && cy == 0) {
        rows
    } else if cx > 0 {
        rows.update(cy, rows[cy].remove(cx - 1))
    } else {
        rows.update(cy - 1, rows[cy - 1] + rows[cy]).remove(cy)
    }
}

/// The buffer after a Return at the cursor: an empty row inserted above when
/// the cursor is at column 0, otherwise the current row split at the cursor.
pub open spec fn rows_after_newline(rows: Seq<Seq<u8>>, cx: int, cy: int) -> Seq<Seq<u8>> {
    if cx == 0 {
        rows.insert(cy, Seq::empty())
    } else {
        rows.update(cy, rows[cy].take(cx)).insert(cy + 1, rows[cy].skip(cx))
    }
}

/// The character-insertion transition on buffer, cursor and dirty flag.
pub open spec fn inserted_char(pre: EditSession, post: EditSession, c: u8) -> bool {
    &&& post.buf@ == rows_after_insert_char(
        pre.buf@,
        pre.cursor_x as int,
        pre.cursor_y as int,
        c,
    )
    &&& post.cursor_x == pre.cursor_x + 1
    &&& post.cursor_y == pre.cursor_y
    &&& post.dirty
}

/// The delete-before-cursor transition, started from cursor `(cx, cy)`.
pub open spec fn deleted_char_from(pre: EditSession, cx: int, cy: int, post: EditSession) -> bool {
    let n = pre.buf@.len() as int;
    &&& post.buf@ == rows_after_delete_char(pre.buf@, cx, cy)
    &&& if cy == n || (cx == 0 && cy == 0) {
        post.cursor_x == cx && post.cursor_y == cy && post.dirty == pre.dirty
    } else if cx > 0 {
        post.cursor_x == cx - 1 && post.cursor_y == cy && post.dirty
    } else {
        post.cursor_x == pre.buf@[cy - 1].len() && post.cursor_y == cy - 1 && post.dirty
    }
}

/// The delete-before-cursor transition at the current cursor.
pub open spec fn deleted_char(pre: EditSession, post: EditSession) -> bool {
    deleted_char_from(pre, pre.cursor_x as int, pre.cursor_y as int, post)
}

/// Backspace at the very start of the buffer is a no-op: the rows, the
/// cursor and the dirty flag all stay as they were.
pub proof fn lemma_backspace_at_origin_is_noop(pre: EditSession, post: EditSession)
    requires
        pre.cursor_x == 0,
        pre.cursor_y == 0,
        deleted_char(pre, post),
    ensures
        post.buf@ == pre.buf@,
        post.cursor_x == pre.cursor_x,
        post.cursor_y == pre.cursor_y,
        post.dirty == pre.dirty,
{
}

/// The Left arrow at row 0, column 0 does not move the cursor.
pub proof fn lemma_left_at_origin_stays(rows: Seq<Seq<u8>>)
    ensures
        moved_once(rows, 0, 0, Dir::Left) == (0int, 0int),
{
}

/// Delete with the cursor at the end of the last row is a no-op on the
/// buffer: the normalizing Right step lands one past the last row, and the
/// delete there changes neither the rows nor the dirty flag.
pub proof fn lemma_delete_at_buffer_end_is_noop(pre: EditSession, post: EditSession)
    requires
        pre.buf@.len() > 0,
        pre.cursor_y + 1 == pre.buf@.len(),
        pre.cursor_x == pre.buf@[pre.cursor_y as int].len(),
        ({
            let m = moved_once(pre.buf@, pre.cursor_x as int, pre.cursor_y as int, Dir::Right);
            deleted_char_from(pre, m.0, m.1, post)
        }),
    ensures
        post.buf@ == pre.buf@,
        post.dirty == pre.dirty,
{
}

/// The Return transition: the cursor moves to column 0 of the next row.
pub open spec fn inserted_newline(pre: EditSession, post: EditSession) -> bool {
    &&& post.buf@ == rows_after_newline(pre.buf@, pre.cursor_x as int, pre.cursor_y as int)
    &&& post.cursor_x == 0
    &&& post.cursor_y == pre.cursor_y + 1
    &&& post.dirty
}

impl EditSession {
    /// Moves the cursor one step, wrapping at row ends and clamping the
    /// column to the target row, as `moved_once` says.
    pub fn move_cursor(&mut self, dir: Dir)
        requires
            old(self).cursor_y <= old(self).buf@.len(),
        ensures
            same_but_cursor(*old(self), *final(self)),
            (final(self).cursor_x as int, final(self).cursor_y as int) == moved_once(
                old(self).buf@,
                old(self).cursor_x as int,
                old(self).cursor_y as int,
                dir,
            ),
            cursor_ok(*final(self)),
    {
        let n = self.buf.num_rows();
        match dir {
            Dir::Up => {
                if self.cursor_y > 0 {
                    self.cursor_y -= 1;
                }
            },
            Dir::Down => {
                if self.cursor_y < n {
                    self.cursor_y += 1;
                }
            },
            Dir::Left => {
                if self.cursor_x > 0 {
                    self.cursor_x -= 1;
                } else if self.cursor_y > 0 {
                    self.cursor_y -= 1;
                    self.cursor_x = self.buf.row_len(self.cursor_y);
                }
            },
            Dir::Right => {
                if self.cursor_y < n {
                    let rl = self.buf.row_len(self.cursor_y);
                    if self.cursor_x < rl {
                        self.cursor_x += 1;
                    } else if self.cursor_x == rl {
                        self.cursor_y += 1;
                        self.cursor_x = 0;
                    }
                }
            },
        }
        let limit = if self.cursor_y < n {
            self.buf.row_len(self.cursor_y)
        } else {
            0
        };
        if self.cursor_x > limit {
            self.cursor_x = limit;
        }
    }

    /// Inserts byte `c` at the cursor and advances one column; a cursor one
    /// past the last row first gets an empty row appended.
    pub fn insert_char(&mut self, c: u8)
        requires
            old(self).wf(),
        ensures
            final(self).wf(),
            same_but_edit(*old(self), *final(self)),
            inserted_char(*old(self), *final(self), c),
    {
        if self.cursor_y == self.buf.num_rows() {
            self.buf.insert_row(self.cursor_y, Vec::new());
            proof {
                assert(self.buf@ =~= old(self).buf@.push(Seq::<u8>::empty()));
            }
        }
        self.buf.insert_char(self.cursor_y, self.cursor_x, c);
        let rl = self.buf.row_len(self.cursor_y);
        proof {
            assert(self.cursor_x < rl);
        }
        self.cursor_x += 1;
        self.dirty = true;
    }

    /// Deletes the character before the cursor, joining with the previous
    /// row at column 0; a no-op at the very start of the buffer and below
    /// the last row.
    pub fn delete_char(&mut self)
        requires
            old(self).wf(),
        ensures
            final(self).wf(),
            same_but_edit(*old(self), *final(self)),
            deleted_char(*old(self), *final(self)),
    {
        let n = self.buf.num_rows();
        if self.cursor_y == n {
            return ;
        }
        if self.cursor_x == 0 && self.cursor_y == 0 {
            return ;
        }
        if self.cursor_x > 0 {
            self.buf.delete_char(self.cursor_y, self.cursor_x - 1);
            self.cursor_x -= 1;
        } else {
            let prev_len = self.buf.row_len(self.cursor_y - 1);
            self.buf.join_with_previous(self.cursor_y);
            self.cursor_x = prev_len;
            self.cursor_y -= 1;
        }
        self.dirty = true;
    }

    /// Handles Return: inserts an empty row above at column 0, otherwise
    /// splits the current row at the cursor; the cursor moves to column 0 of
    /// the next row.
    pub fn insert_newline(&mut self)
        requires
            old(self).wf(),
        ensures
            final(self).wf(),
            same_but_edit(*old(self), *final(self)),
            inserted_newline(*old(self), *final(self)),
    {
        if self.cursor_x == 0 {
            self.buf.insert_row(self.cursor_y, Vec::new());
        } else {
            self.buf.split(self.cursor_y, self.cursor_x);
        }
        let n2 = self.buf.num_rows();
        proof {
            assert(self.cursor_y < n2);
        }
        self.cursor_y += 1;
        self.cursor_x = 0;
        self.dirty = true;
    }
}

/// Only the quit counter may differ, and it is back at the threshold.
pub open spec fn noop_reset(pre: EditSession, post: EditSession) -> bool {
    &&& post == (EditSession { quit_times: post.quit_times, ..pre })
    &&& post.quit_times == QUIT_TIMES
}

/// Only buffer, cursor, dirty flag and quit counter may differ.
pub open spec fn edit_qt_frame(pre: EditSession, post: EditSession) -> bool {
    post == (EditSession {
        buf: post.buf,
        cursor_x: post.cursor_x,
        cursor_y: post.cursor_y,
        dirty: post.dirty,
        quit_times: post.quit_times,
        ..pre
    })
}

/// A movement key: the cursor steps once and the quit counter resets.
pub open spec fn moved_post(pre: EditSession, post: EditSession, dir: Dir) -> bool {
    &&& post == (EditSession {
        cursor_x: post.cursor_x,
        cursor_y: post.cursor_y,
        quit_times: post.quit_times,
        ..pre
    })
    &&& (post.cursor_x as int, post.cursor_y as int) == moved_once(
        pre.buf@,
        pre.cursor_x as int,
        pre.cursor_y as int,
        dir,
    )
    &&& post.quit_times == QUIT_TIMES
}

/// Where a page movement lands: the cursor jumps to the top (or bottom) row
/// of the window, clamped to the buffer, and then steps one screenful
/// further in the same direction, row by row.
pub open spec fn page_dest(pre: EditSession, up: bool) -> (int, int) {
    let n = pre.buf@.len() as int;
    let ro = pre.viewport.row_offset as int;
    let rows = pre.viewport.screen_rows as int;
    let start = if up {
        if ro <= n {
            ro
        } else {
            n
        }
    } else {
        if ro + rows - 1 <= n {
            ro + rows - 1
        } else {
            n
        }
    };
    moved_many(
        pre.buf@,
        pre.cursor_x as int,
        start,
        if up {
            Dir::Up
        } else {
            Dir::Down
        },
        pre.viewport.screen_rows as nat,
    )
}

/// A page key: the cursor lands at `page_dest` and the quit counter resets.
pub open spec fn paged(pre: EditSession, post: EditSession, up: bool) -> bool {
    &&& post == (EditSession {
        cursor_x: post.cursor_x,
        cursor_y: post.cursor_y,
        quit_times: post.quit_times,
        ..pre
    })
    &&& (post.cursor_x as int, post.cursor_y as int) == page_dest(pre, up)
    &&& post.quit_times == QUIT_TIMES
}

/// The quit transition. With no unsaved changes the editor exits at once.
/// With unsaved changes the counter is decremented: while it stays above
/// zero the session continues with a warning carrying the remaining count,
/// and once it reaches zero the editor exits.
pub open spec fn quit_post(pre: EditSession, post: EditSession, a: Action) -> bool {
    if !pre.dirty {
        post == pre && a matches Action::Quit
    } else if pre.quit_times > 1 {
        &&& post == (EditSession { quit_times: post.quit_times, status: post.status, ..pre })
        &&& post.quit_times == pre.quit_times - 1
        &&& post.status == StatusMsg::QuitWarning((pre.quit_times - 1) as u8)
        &&& a matches Action::Continue
    } else {
        post == pre && a matches Action::Quit
    }
}

/// The save request. With a filename the serialized buffer is handed out to
/// be written; without one the session starts prompting for a name.
pub open spec fn save_request_post(pre: EditSession, post: EditSession, a: Action) -> bool {
    match pre.filename {
        Some(_) => {
            &&& post == (EditSession { quit_times: post.quit_times, ..pre })
            &&& post.quit_times == QUIT_TIMES
            &&& (a matches Action::Save(data) && data@ == text_of(pre.buf@))
        },
        None => {
            &&& post == (EditSession {
                mode: post.mode,
                prompt_buf: post.prompt_buf,
                quit_times: post.quit_times,
                ..pre
            })
            &&& post.mode == Mode::Prompting
            &&& post.prompt_buf@ == Seq::<u8>::empty()
            &&& post.quit_times == QUIT_TIMES
            &&& a matches Action::Continue
        },
    }
}

/// Backspace while prompting: the last typed character is dropped.
pub open spec fn prompt_popped(pre: EditSession, post: EditSession) -> bool {
    &&& post == (EditSession {
        prompt_buf: post.prompt_buf,
        quit_times: post.quit_times,
        ..pre
    })
    &&& post.prompt_buf@ == if pre.prompt_buf@.len() > 0 {
        pre.prompt_buf@.drop_last()
    } else {
        Seq::<u8>::empty()
    }
    &&& post.quit_times == QUIT_TIMES
}

/// A prompt-mode key that changes nothing but the quit counter.
pub open spec fn prompt_unchanged(pre: EditSession, post: EditSession) -> bool {
    &&& post == (EditSession { quit_times: post.quit_times, ..pre })
    &&& post.quit_times == QUIT_TIMES
}

/// One key while the session collects a save-as filename: printable bytes
/// append to the name, Backspace and Delete drop the last one, Escape
/// cancels the save, and Return confirms a nonempty name and hands out the
/// serialized buffer.
pub open spec fn prompt_key_post(pre: EditSession, post: EditSession, key: Key, a: Action) -> bool {
    match key {
        Key::Delete => prompt_popped(pre, post) && a matches Action::Continue,
        Key::Escape => {
            &&& post == (EditSession {
                mode: post.mode,
                prompt_buf: post.prompt_buf,
                status: post.status,
                quit_times: post.quit_times,
                ..pre
            })
            &&& post.mode == Mode::Normal
            &&& post.prompt_buf@ == Seq::<u8>::empty()
            &&& post.status == StatusMsg::SaveAborted
            &&& post.quit_times == QUIT_TIMES
            &&& a matches Action::Continue
        },
        Key::Char(c) => {
            if c == KEY_CTRL_H || c == KEY_BACKSPACE {
                prompt_popped(pre, post) && a matches Action::Continue
            } else if c == KEY_RETURN {
                if pre.prompt_buf@.len() > 0 {
                    &&& post == (EditSession {
                        mode: post.mode,
                        prompt_buf: post.prompt_buf,
                        filename: post.filename,
                        status: post.status,
                        quit_times: post.quit_times,
                        ..pre
                    })
                    &&& post.mode == Mode::Normal
                    &&& post.prompt_buf@ == Seq::<u8>::empty()
                    &&& (post.filename matches Some(f) && f@ == pre.prompt_buf@)
                    &&& post.status == StatusMsg::Cleared
                    &&& post.quit_times == QUIT_TIMES
                    &&& (a matches Action::Save(data) && data@ == text_of(pre.buf@))
                } else {
                    prompt_unchanged(pre, post) && a matches Action::Continue
                }
            } else if !(c <= 31 || c == 127) && c < 128 {
                &&& post == (EditSession {
                    prompt_buf: post.prompt_buf,
                    quit_times: post.quit_times,
                    ..pre
                })
                &&& post.prompt_buf@ == pre.prompt_buf@.push(c)
                &&& post.quit_times == QUIT_TIMES
                &&& a matches Action::Continue
            } else {
                prompt_unchanged(pre, post) && a matches Action::Continue
            }
        },
        _ => prompt_unchanged(pre, post) && a matches Action::Continue,
    }
}

/// One key in normal editing mode: movement, editing, save and quit, as the
/// per-key transitions say. Every key but a quit press resets the quit
/// counter.
pub open spec fn normal_key_post(pre: EditSession, post: EditSession, key: Key, a: Action) -> bool {
    match key {
        Key::Arrow(d) => moved_post(pre, post, d) && a matches Action::Continue,
        Key::Home => {
            &&& post == (EditSession {
                cursor_x: post.cursor_x,
                quit_times: post.quit_times,
                ..pre
            })
            &&& post.cursor_x == 0
            &&& post.quit_times == QUIT_TIMES
            &&& a matches Action::Continue
        },
        Key::End => {
            &&& post == (EditSession {
                cursor_x: post.cursor_x,
                quit_times: post.quit_times,
                ..pre
            })
            &&& post.cursor_x as int == (if pre.cursor_y < pre.buf@.len() {
                pre.buf@[pre.cursor_y as int].len() as int
            } else {
                pre.cursor_x as int
            })
            &&& post.quit_times == QUIT_TIMES
            &&& a matches Action::Continue
        },
        Key::Delete => {
            let m = moved_once(pre.buf@, pre.cursor_x as int, pre.cursor_y as int, Dir::Right);
            &&& edit_qt_frame(pre, post)
            &&& deleted_char_from(pre, m.0, m.1, post)
            &&& post.quit_times == QUIT_TIMES
            &&& a matches Action::Continue
        },
        Key::PageUp => paged(pre, post, true) && a matches Action::Continue,
        Key::PageDown => paged(pre, post, false) && a matches Action::Continue,
        Key::Escape | Key::Unknown => noop_reset(pre, post) && a matches Action::Continue,
        Key::Char(c) => {
            if c == KEY_RETURN {
                &&& edit_qt_frame(pre, post)
                &&& inserted_newline(pre, post)
                &&& post.quit_times == QUIT_TIMES
                &&& a matches Action::Continue
            } else if c == KEY_CTRL_Q {
                quit_post(pre, post, a)
            } else if c == KEY_CTRL_S {
                save_request_post(pre, post, a)
            } else if c == KEY_BACKSPACE || c == KEY_CTRL_H {
                &&& edit_qt_frame(pre, post)
                &&& deleted_char(pre, post)
                &&& post.quit_times == QUIT_TIMES
                &&& a matches Action::Continue
            } else if c <= 31 {
                // an unbound control byte is never inserted as text
                noop_reset(pre, post) && a matches Action::Continue
            } else {
                &&& edit_qt_frame(pre, post)
                &&& inserted_char(pre, post, c)
                &&& post.quit_times == QUIT_TIMES
                &&& a matches Action::Continue
            }
        },
    }
}

impl EditSession {
    /// Jumps the cursor one screenful up or down: first to the window's top
    /// (or bottom) row, then one step per screen row.
    fn page_cursor(&mut self, up: bool)
        requires
            old(self).wf(),
        ensures
            same_but_cursor(*old(self), *final(self)),
            cursor_ok(*final(self)),
            (final(self).cursor_x as int, final(self).cursor_y as int) == page_dest(
                *old(self),
                up,
            ),
    {
        let n = self.buf.num_rows();
        let ro = self.viewport.row_offset;
        if up {
            self.cursor_y = if ro <= n {
                ro
            } else {
                n
            };
        } else {
            if ro >= n {
                self.cursor_y = n;
            } else {
                let reach = n - ro;
                let step = self.viewport.screen_rows - 1;
                let capped = if step <= reach {
                    step
                } else {
                    reach
                };
                self.cursor_y = ro + capped;
            }
        }
        let ghost start = self.cursor_y as int;
        let times = self.viewport.screen_rows;
        let dir = if up {
            Dir::Up
        } else {
            Dir::Down
        };
        let mut t: usize = 0;
        while t < times
            invariant
                t <= times,
                self.cursor_y <= self.buf@.len(),
                same_but_cursor(*old(self), *self),
                (self.cursor_x as int, self.cursor_y as int) == moved_many(
                    old(self).buf@,
                    old(self).cursor_x as int,
                    start,
                    dir,
                    t as nat,
                ),
            decreases times - t,
        {
            self.move_cursor(dir);
            t += 1;
        }
    }

    /// One key while prompting for a save-as filename.
    fn prompt_key(&mut self, key: Key) -> (a: Action)
        requires
            old(self).wf(),
            old(self).mode == Mode::Prompting,
        ensures
            final(self).wf(),
            prompt_key_post(*old(self), *final(self), key, a),
    {
        self.quit_times = QUIT_TIMES;
        match key {
            Key::Delete => {
                if self.prompt_buf.len() > 0 {
                    self.prompt_buf.pop();
                } else {
                    proof {
                        assert(self.prompt_buf@ =~= Seq::<u8>::empty());
                    }
                }
                Action::Continue
            },
            Key::Escape => {
                self.mode = Mode::Normal;
                self.prompt_buf = Vec::new();
                self.status = StatusMsg::SaveAborted;
                Action::Continue
            },
            Key::Char(c) => {
                if c == KEY_CTRL_H || c == KEY_BACKSPACE {
                    if self.prompt_buf.len() > 0 {
                        self.prompt_buf.pop();
                    } else {
                        proof {
                            assert(self.prompt_buf@ =~= Seq::<u8>::empty());
                        }
                    }
                    Action::Continue
                } else if c == KEY_RETURN {
                    if self.prompt_buf.len() > 0 {
                        let mut name: Vec<u8> = Vec::new();
                        core::mem::swap(&mut name, &mut self.prompt_buf);
                        self.filename = Some(name);
                        self.mode = Mode::Normal;
                        self.status = StatusMsg::Cleared;
                        let data = self.buf.to_text();
                        Action::Save(data)
                    } else {
                        Action::Continue
                    }
                } else if !is_ctrl(c) && c < 128 {
                    self.prompt_buf.push(c);
                    Action::Continue
                } else {
                    Action::Continue
                }
            },
            _ => Action::Continue,
        }
    }

    /// Feeds one decoded key event through the state machine and says what
    /// the caller must do next.
    pub fn process_key(&mut self, key: Key) -> (a: Action)
        requires
            old(self).wf(),
        ensures
            final(self).wf(),
            old(self).mode == Mode::Normal ==> normal_key_post(*old(self), *final(self), key, a),
            old(self).mode == Mode::Prompting ==> prompt_key_post(
                *old(self),
                *final(self),
                key,
                a,
            ),
    {
        if self.mode == Mode::Prompting {
            return self.prompt_key(key);
        }
        match key {
            Key::Arrow(d) => {
                self.move_cursor(d);
                self.quit_times = QUIT_TIMES;
                Action::Continue
            },
            Key::Home => {
                self.cursor_x = 0;
                self.quit_times = QUIT_TIMES;
                Action::Continue
            },
            Key::End => {
                if self.cursor_y < self.buf.num_rows() {
                    self.cursor_x = self.buf.row_len(self.cursor_y);
                }
                self.quit_times = QUIT_TIMES;
                Action::Continue
            },
            Key::Delete => {
                self.move_cursor(Dir::Right);
                self.delete_char();
                self.quit_times = QUIT_TIMES;
                Action::Continue
            },
            Key::PageUp => {
                self.page_cursor(true);
                self.quit_times = QUIT_TIMES;
                Action::Continue
            },
            Key::PageDown => {
                self.page_cursor(false);
                self.quit_times = QUIT_TIMES;
                Action::Continue
            },
            Key::Escape | Key::Unknown => {
                self.quit_times = QUIT_TIMES;
                Action::Continue
            },
            Key::Char(c) => {
                if c == KEY_RETURN {
                    self.insert_newline();
                    self.quit_times = QUIT_TIMES;
                    Action::Continue
                } else if c == KEY_CTRL_Q {
                    if !self.dirty {
                        return Action::Quit;
                    }
                    if self.quit_times > 1 {
                        self.quit_times -= 1;
                        self.status = StatusMsg::QuitWarning(self.quit_times);
                        Action::Continue
                    } else {
                        Action::Quit
                    }
                } else if c == KEY_CTRL_S {
                    if self.filename.is_some() {
                        self.quit_times = QUIT_TIMES;
                        let data = self.buf.to_text();
                        Action::Save(data)
                    } else {
                        self.mode = Mode::Prompting;
                        self.prompt_buf = Vec::new();
                        self.quit_times = QUIT_TIMES;
                        Action::Continue
                    }
                } else if c == KEY_BACKSPACE || c == KEY_CTRL_H {
                    self.delete_char();
                    self.quit_times = QUIT_TIMES;
                    Action::Continue
                } else if is_ctrl(c) {
                    self.quit_times = QUIT_TIMES;
                    Action::Continue
                } else {
                    self.insert_char(c);
                    self.quit_times = QUIT_TIMES;
                    Action::Continue
                }
            },
        }
    }

    /// Takes the outcome of writing a requested save to disk: success clears
    /// the dirty flag and reports the byte count; failure keeps the dirty
    /// flag and the buffer untouched.
    pub fn save_finished(&mut self, ok: bool, bytes_written: usize)
        requires
            old(self).wf(),
        ensures
            final(self).wf(),
            *final(self) == (EditSession {
                dirty: final(self).dirty,
                status: final(self).status,
                ..*old(self)
            }),
            ok ==> !final(self).dirty && final(self).status == StatusMsg::BytesWritten(
                bytes_written,
            ),
            !ok ==> final(self).dirty == old(self).dirty && final(self).status
                == StatusMsg::SaveFailed,
    {
        if ok {
            self.dirty = false;
            self.status = StatusMsg::BytesWritten(bytes_written);
        } else {
            self.status = StatusMsg::SaveFailed;
        }
    }
}

/// The render column of the cursor: its file column mapped through tab
/// expansion on the current row, or the file column itself one past the last
/// row.
pub open spec fn current_render_col(s: EditSession) -> int {
    if s.cursor_y < s.buf@.len() {
        render_col(s.buf@[s.cursor_y as int], s.cursor_x as int)
    } else {
        s.cursor_x as int
    }
}

/// The scroll recomputation: the render column is refreshed from the cursor
/// and both offsets are scrolled just far enough to keep the cursor inside
/// the window. Nothing else changes.
pub open spec fn scroll_post(pre: EditSession, post: EditSession) -> bool {
    &&& post == (EditSession { render_x: post.render_x, viewport: post.viewport, ..pre })
    &&& post.viewport.screen_rows == pre.viewport.screen_rows
    &&& post.viewport.screen_cols == pre.viewport.screen_cols
    &&& post.render_x as int == current_render_col(pre)
    &&& post.viewport.row_offset as int == scrolled_off(
        pre.viewport.row_offset as int,
        pre.viewport.screen_rows as int,
        pre.cursor_y as int,
    )
    &&& post.viewport.col_offset as int == scrolled_off(
        pre.viewport.col_offset as int,
        pre.viewport.screen_cols as int,
        current_render_col(pre),
    )
}

impl EditSession {
    /// Recomputes the cursor's render column and scrolls the viewport the
    /// minimal distance that keeps the cursor visible.
    pub fn recompute_scroll(&mut self)
        requires
            old(self).wf(),
        ensures
            final(self).wf(),
            scroll_post(*old(self), *final(self)),
            final(self).viewport.row_offset <= final(self).cursor_y
                < final(self).viewport.row_offset + final(self).viewport.screen_rows,
            final(self).viewport.col_offset <= final(self).render_x
                < final(self).viewport.col_offset + final(self).viewport.screen_cols,
    {
        let rx = if self.cursor_y < self.buf.num_rows() {
            file_col_to_render_col(self.buf.row(self.cursor_y), self.cursor_x)
        } else {
            self.cursor_x
        };
        self.render_x = rx;
        let cy = self.cursor_y;
        self.viewport.scroll_to(cy, rx);
    }
}

/// Recomputing the scroll twice in a row with no cursor movement in between
/// yields identical offsets and render column the second time: one
/// recomputation reaches a fixed point.
pub proof fn lemma_recompute_scroll_idempotent(
    pre: EditSession,
    mid: EditSession,
    post: EditSession,
)
    requires
        pre.wf(),
        scroll_post(pre, mid),
        scroll_post(mid, post),
    ensures
        post.render_x == mid.render_x,
        post.viewport.row_offset == mid.viewport.row_offset,
        post.viewport.col_offset == mid.viewport.col_offset,
{
    assert(current_render_col(mid) == current_render_col(pre));
    lemma_scroll_idempotent(
        pre.viewport.row_offset as int,
        pre.viewport.screen_rows as int,
        pre.cursor_y as int,
    );
    lemma_scroll_idempotent(
        pre.viewport.col_offset as int,
        pre.viewport.screen_cols as int,
        current_render_col(pre),
    );
}

} // verus!
