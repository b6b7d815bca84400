//! The ordered sequence of rows that makes up the open file.
//!
//! Rows keep file order; indices are contiguous. Loading splits the file's
//! bytes into rows at newline bytes; saving writes every row back followed by
//! one newline, so a file that ends in a newline round-trips byte for byte.

use vstd::prelude::*;
use crate::row::Row;

verus! {

/// The byte value of a newline.
pub const NL: u8 = 10;

/// The file form of a sequence of rows: each row followed by one newline.
pub open spec fn text_of(rows: Seq<Seq<u8>>) -> Seq<u8>
    decreases rows.len(),
{
    if rows.len() == 0 {
        Seq::empty()
    } else {
        rows[0] + seq![NL] + text_of(rows.drop_first())
    }
}

/// The index of the first newline byte in `t`, or `t.len()` when there is
/// none.
pub open spec fn first_nl(t: Seq<u8>) -> int
    decreases t.len(),
{
    if t.len() == 0 {
        0
    } else if t[0] == NL {
        0
    } else {
        1 + first_nl(t.drop_first())
    }
}

/// `first_nl` points at the first newline: everything before it is not a
/// newline, and it is a newline unless there is none at all.
pub proof fn lemma_first_nl_bounds(t: Seq<u8>)
    ensures
        0 <= first_nl(t) <= t.len(),
        first_nl(t) < t.len() ==> t[first_nl(t)] == NL,
        forall|j: int| 0 <= j < first_nl(t) ==> t[j] != NL,
    decreases t.len(),
{
    if t.len() == 0 {
    } else if t[0] == NL {
    } else {
        lemma_first_nl_bounds(t.drop_first());
        assert forall|j: int| 0 <= j < first_nl(t) implies t[j] != NL by {
            if j > 0 {
                assert(t.drop_first()[j - 1] == t[j]);
            }
        }
    }
}

/// Any position that carries the first newline is `first_nl`.
pub proof fn lemma_first_nl_is(t: Seq<u8>, p: int)
    requires
        0 <= p <= t.len(),
        p < t.len() ==> t[p] == NL,
        forall|j: int| 0 <= j < p ==> t[j] != NL,
        p == t.len() ==> forall|j: int| 0 <= j < t.len() ==> t[j] != NL,
    ensures
        first_nl(t) == p,
    decreases t.len(),
{
    if t.len() == 0 {
    } else if t[0] == NL {
        assert(p == 0);
    } else {
        assert(p >= 1);
        let t1 = t.drop_first();
        assert(forall|j: int| 0 <= j < t1.len() ==> t1[j] == t[j + 1]);
        lemma_first_nl_is(t1, p - 1);
    }
}

/// The rows a byte sequence splits into: one row per newline-terminated
/// line, plus one more for a nonempty remainder after the last newline.
pub open spec fn lines_of(t: Seq<u8>) -> Seq<Seq<u8>>
    decreases t.len(),
    via lines_of_decreases
{
    if t.len() == 0 {
        Seq::empty()
    } else {
        let i = first_nl(t);
        if i == t.len() {
            seq![t]
        } else {
            seq![t.take(i)] + lines_of(t.skip(i + 1))
        }
    }
}

#[via_fn]
proof fn lines_of_decreases(t: Seq<u8>) {
    lemma_first_nl_bounds(t);
}

/// A newline-free byte sequence followed by a newline is a single row.
pub proof fn lemma_lines_single_terminated(u: Seq<u8>)
    requires
        forall|j: int| 0 <= j < u.len() ==> u[j] != NL,
    ensures
        lines_of(u + seq![NL]) == seq![u],
{
    let t = u + seq![NL];
    assert(forall|j: int| 0 <= j < u.len() ==> t[j] == u[j]);
    lemma_first_nl_is(t, u.len() as int);
    assert(t.take(u.len() as int) =~= u);
    assert(t.skip(u.len() as int + 1) =~= Seq::<u8>::empty());
    assert(seq![u] + lines_of(Seq::<u8>::empty()) =~= seq![u]);
}

/// A nonempty newline-free byte sequence is a single row on its own.
pub proof fn lemma_lines_single_unterminated(u: Seq<u8>)
    requires
        u.len() > 0,
        forall|j: int| 0 <= j < u.len() ==> u[j] != NL,
    ensures
        lines_of(u) == seq![u],
{
    lemma_first_nl_is(u, u.len() as int);
}

/// Splitting into rows distributes over concatenation at a line boundary:
/// when the first part is empty or ends with a newline, its rows come first
/// and the second part's rows follow.
pub proof fn lemma_lines_concat(t1: Seq<u8>, t2: Seq<u8>)
    requires
        t1.len() == 0 || t1.last() == NL,
    ensures
        lines_of(t1 + t2) == lines_of(t1) + lines_of(t2),
    decreases t1.len(),
{
    if t1.len() == 0 {
        assert(t1 + t2 =~= t2);
        assert(lines_of(t1) + lines_of(t2) =~= lines_of(t2));
    } else {
        lemma_first_nl_bounds(t1);
        let p = first_nl(t1);
        assert(p < t1.len()) by {
            if p == t1.len() {
                assert(t1[t1.len() - 1] != NL);
            }
        }
        let t = t1 + t2;
        assert(forall|j: int| 0 <= j < t1.len() ==> t[j] == t1[j]);
        lemma_first_nl_is(t, p);
        let rest1 = t1.skip(p + 1);
        assert(t.take(p) =~= t1.take(p));
        assert(t.skip(p + 1) =~= rest1 + t2);
        if rest1.len() > 0 {
            assert(rest1.last() == t1.last());
        }
        lemma_lines_concat(rest1, t2);
        assert(seq![t1.take(p)] + (lines_of(rest1) + lines_of(t2)) =~= (seq![t1.take(p)]
            + lines_of(rest1)) + lines_of(t2));
        if rest1.len() == 0 {
            assert(lines_of(t1) =~= seq![t1.take(p)] + lines_of(rest1));
        }
    }
}

/// Loading a file and saving it straight back reproduces its bytes exactly,
/// except that a missing final newline is normalized to one: splitting into
/// rows and serializing again is the identity on newline-terminated text and
/// appends the one missing newline otherwise.
pub proof fn lemma_text_lines_roundtrip(t: Seq<u8>)
    ensures
        (t.len() == 0 || t.last() == NL) ==> text_of(lines_of(t)) == t,
        !(t.len() == 0 || t.last() == NL) ==> text_of(lines_of(t)) == t + seq![NL],
    decreases t.len(),
{
    if t.len() == 0 {
    } else {
        lemma_first_nl_bounds(t);
        let p = first_nl(t);
        if p == t.len() {
            // no newline at all: one row, serialized with one appended
            assert(t.last() != NL);
            let l = lines_of(t);
            assert(l == seq![t]);
            assert(l.len() == 1);
            assert(l[0] == t);
            assert(l.drop_first() =~= Seq::<Seq<u8>>::empty());
            assert(text_of(l) == t + seq![NL] + text_of(l.drop_first()));
            assert(text_of(l.drop_first()) == Seq::<u8>::empty());
            assert(t + seq![NL] + Seq::<u8>::empty() =~= t + seq![NL]);
        } else {
            let rest = t.skip(p + 1);
            let l = lines_of(t);
            assert(l == seq![t.take(p)] + lines_of(rest));
            assert(l.len() > 0);
            assert(l[0] == t.take(p));
            assert(l.drop_first() =~= lines_of(rest));
            lemma_text_lines_roundtrip(rest);
            assert(text_of(l) == t.take(p) + seq![NL] + text_of(l.drop_first()));
            assert(text_of(l.drop_first()) == text_of(lines_of(rest)));
            assert(t.take(p) + seq![NL] =~= t.take(p + 1));
            assert(text_of(l) == t.take(p + 1) + text_of(lines_of(rest)));
            if rest.len() == 0 {
                assert(t.take(p + 1) + Seq::<u8>::empty() =~= t);
                assert(t.last() == t[p]);
            } else {
                assert(rest.last() == t.last());
                if t.last() == NL {
                    assert(t.take(p + 1) + rest =~= t);
                } else {
                    assert(t.take(p + 1) + (rest + seq![NL]) =~= t + seq![NL]);
                }
            }
        }
    }
}

/// Appending one more row to the file form appends its bytes and a newline.
pub proof fn lemma_text_of_push(rows: Seq<Seq<u8>>, x: Seq<u8>)
    ensures
        text_of(rows.push(x)) == text_of(rows) + x + seq![NL],
    decreases rows.len(),
{
    if rows.len() == 0 {
        assert(rows.push(x).len() == 1);
        assert(rows.push(x)[0] == x);
        assert(rows.push(x).drop_first() =~= Seq::<Seq<u8>>::empty());
        assert(text_of(rows.push(x).drop_first()) == Seq::<u8>::empty());
        assert(text_of(rows.push(x)) == x + seq![NL] + text_of(rows.push(x).drop_first()));
        assert(Seq::<u8>::empty() + x + seq![NL] =~= x + seq![NL]);
        assert(x + seq![NL] + Seq::<u8>::empty() =~= x + seq![NL]);
        assert(text_of(rows) == Seq::<u8>::empty());
    } else {
        let r = rows.push(x);
        assert(r.len() == rows.len() + 1);
        assert(r[0] == rows[0]);
        assert(r.drop_first() =~= rows.drop_first().push(x));
        lemma_text_of_push(rows.drop_first(), x);
        assert(text_of(r) == rows[0] + seq![NL] + text_of(r.drop_first()));
        assert(text_of(r.drop_first()) == text_of(rows.drop_first()) + x + seq![NL]);
        assert(rows[0] + seq![NL] + (text_of(rows.drop_first()) + x + seq![NL]) =~= (rows[0]
            + seq![NL] + text_of(rows.drop_first())) + x + seq![NL]);
        assert(text_of(rows) == rows[0] + seq![NL] + text_of(rows.drop_first()));
    }
}

/// The ordered rows of the open file.
pub struct LineBuffer {
    /// The rows, in file order.
    pub rows: Vec<Row>,
}

impl View for LineBuffer {
    type V = Seq<Seq<u8>>;

    open spec fn view(&self) -> Seq<Seq<u8>> {
        self.rows@.map(|i: int, r: Row| r.content@)
    }
}

impl LineBuffer {
    /// Every row's rendered form is in sync with its content.
    pub open spec fn wf(self) -> bool {
        forall|i: int| 0 <= i < self.rows@.len() ==> (#[trigger] self.rows@[i]).wf()
    }

    /// An empty buffer.
    pub fn new() -> (b: LineBuffer)
        ensures
            b.wf(),
            b@ == Seq::<Seq<u8>>::empty(),
    {
        let b = LineBuffer { rows: Vec::new() };
        proof {
            assert(b@ =~= Seq::<Seq<u8>>::empty());
        }
        b
    }

    /// The number of rows.
    pub fn num_rows(&self) -> (n: usize)
        ensures
            n == self@.len(),
    {
        self.rows.len()
    }

    /// A reference to the row at `i`.
    pub fn row(&self, i: usize) -> (r: &Row)
        requires
            i < self@.len(),
        ensures
            *r == self.rows@[i as int],
            r.content@ == self@[i as int],
    {
        &self.rows[i]
    }

    /// The content length of the row at `i`.
    pub fn row_len(&self, i: usize) -> (n: usize)
        requires
            i < self@.len(),
        ensures
            n == self@[i as int].len(),
    {
        self.rows[i].len()
    }

    /// Inserts a new row with the given text at position `at`; does nothing
    /// when `at` is past the end.
    pub fn insert_row(&mut self, at: usize, text: Vec<u8>)
        requires
            old(self).wf(),
        ensures
            final(self).wf(),
            final(self)@ == if at <= old(self)@.len() {
                old(self)@.insert(at as int, text@)
            } else {
                old(self)@
            },
    {
        if at <= self.rows.len() {
            let row = Row::new(text);
            self.rows.insert(at, row);
            proof {
                assert(self@ =~= old(self)@.insert(at as int, text@));
            }
        }
    }

    /// Removes the row at `at`; does nothing when `at` is out of range.
    pub fn delete_row(&mut self, at: usize)
        requires
            old(self).wf(),
        ensures
            final(self).wf(),
            final(self)@ == if at < old(self)@.len() {
                old(self)@.remove(at as int)
            } else {
                old(self)@
            },
    {
        if at < self.rows.len() {
            self.rows.remove(at);
            proof {
                assert(self@ =~= old(self)@.remove(at as int));
            }
        }
    }

    /// Inserts byte `c` at column `at` of row `row`, the column clamped to
    /// the row length.
    pub fn insert_char(&mut self, row: usize, at: usize, c: u8)
        requires
            old(self).wf(),
            row < old(self)@.len(),
        ensures
            final(self).wf(),
            final(self)@ == old(self)@.update(
                row as int,
                old(self)@[row as int].insert(
                    if at <= old(self)@[row as int].len() {
                        at as int
                    } else {
                        old(self)@[row as int].len() as int
                    },
                    c,
                ),
            ),
    {
        self.rows[row].insert_char(at, c);
        proof {
            assert(self@ =~= old(self)@.update(
                row as int,
                self.rows@[row as int].content@,
            ));
        }
    }

    /// Removes the byte at column `at` of row `row`; does nothing when the
    /// column is out of range.
    pub fn delete_char(&mut self, row: usize, at: usize)
        requires
            old(self).wf(),
            row < old(self)@.len(),
        ensures
            final(self).wf(),
            final(self)@ == old(self)@.update(
                row as int,
                if at < old(self)@[row as int].len() {
                    old(self)@[row as int].remove(at as int)
                } else {
                    old(self)@[row as int]
                },
            ),
    {
        self.rows[row].delete_char(at);
        proof {
            assert(self@ =~= old(self)@.update(
                row as int,
                self.rows@[row as int].content@,
            ));
        }
    }

    /// Splits row `row` at column `at`: the row keeps what is before the
    /// column and the remainder becomes a new row right after it.
    pub fn split(&mut self, row: usize, at: usize)
        requires
            old(self).wf(),
            row < old(self)@.len(),
            at <= old(self)@[row as int].len(),
        ensures
            final(self).wf(),
            final(self)@ == old(self)@.update(
                row as int,
                old(self)@[row as int].take(at as int),
            ).insert(row as int + 1, old(self)@[row as int].skip(at as int)),
    {
        let n = self.rows.len();
        proof {
            assert(row < n);
        }
        let rest = self.rows[row].split_off(at);
        self.rows.insert(row + 1, rest);
        proof {
            assert(self@ =~= old(self)@.update(
                row as int,
                old(self)@[row as int].take(at as int),
            ).insert(row as int + 1, old(self)@[row as int].skip(at as int)));
        }
    }

    /// Appends row `row`'s content onto the previous row and removes row
    /// `row`.
    pub fn join_with_previous(&mut self, row: usize)
        requires
            old(self).wf(),
            1 <= row < old(self)@.len(),
        ensures
            final(self).wf(),
            final(self)@ == old(self)@.update(
                row as int - 1,
                old(self)@[row as int - 1] + old(self)@[row as int],
            ).remove(row as int),
    {
        let moved = self.rows.remove(row);
        self.rows[row - 1].append(moved.content.as_slice());
        proof {
            assert(self@ =~= old(self)@.update(
                row as int - 1,
                old(self)@[row as int - 1] + old(self)@[row as int],
            ).remove(row as int));
        }
    }

    /// Serializes the buffer into file form: every row's bytes followed by
    /// one newline, the last row included.
    pub fn to_text(&self) -> (out: Vec<u8>)
        ensures
            out@ == text_of(self@),
    {
        let mut out: Vec<u8> = Vec::new();
        let mut i: usize = 0;
        proof {
            assert(self@.take(0) =~= Seq::<Seq<u8>>::empty());
        }
        while i < self.rows.len()
            invariant
                i <= self@.len(),
                out@ == text_of(self@.take(i as int)),
            decreases self@.len() - i,
        {
            proof {
                assert(self@.take(i as int + 1) =~= self@.take(i as int).push(self@[i as int]));
                lemma_text_of_push(self@.take(i as int), self@[i as int]);
            }
            out.extend_from_slice(self.rows[i].content.as_slice());
            out.push(NL);
            proof {
                assert(out@ =~= text_of(self@.take(i as int)) + self@[i as int] + seq![NL]);
            }
            i += 1;
        }
        proof {
            assert(self@.take(self@.len() as int) =~= self@);
        }
        out
    }

    /// Splits file bytes into rows at newline bytes; a nonempty remainder
    /// after the last newline becomes one more row.
    pub fn from_text(text: &Vec<u8>) -> (b: LineBuffer)
        ensures
            b.wf(),
            b@ == lines_of(text@),
    {
        let mut b = LineBuffer::new();
        let mut cur: Vec<u8> = Vec::new();
        let ghost mut start: int = 0;
        let mut i: usize = 0;
        while i < text.len()
            invariant
                0 <= start <= i <= text@.len(),
                b.wf(),
                b@ == lines_of(text@.take(start)),
                start == 0 || text@[start - 1] == NL,
                cur@ == text@.subrange(start, i as int),
                forall|j: int| start <= j < i ==> text@[j] != NL,
            decreases text@.len() - i,
        {
            let c = text[i];
            if c == NL {
                proof {
                    assert(text@.take(i as int + 1) =~= text@.take(start) + (cur@ + seq![NL]));
                    assert(forall|j: int| 0 <= j < cur@.len() ==> cur@[j] == text@[start + j]);
                    lemma_lines_concat(text@.take(start), cur@ + seq![NL]);
                    lemma_lines_single_terminated(cur@);
                }
                let row = Row::new(cur);
                b.rows.push(row);
                cur = Vec::new();
                proof {
                    assert(b@ =~= lines_of(text@.take(i as int + 1)));
                    start = i as int + 1;
                    assert(cur@ =~= text@.subrange(start, i as int + 1));
                }
            } else {
                cur.push(c);
                proof {
                    assert(cur@ =~= text@.subrange(start, i as int + 1));
                }
            }
            i += 1;
        }
        if cur.len() > 0 {
            proof {
                assert(text@ =~= text@.take(start) + cur@);
                assert(forall|j: int| 0 <= j < cur@.len() ==> cur@[j] == text@[start + j]);
                lemma_lines_concat(text@.take(start), cur@);
                lemma_lines_single_unterminated(cur@);
            }
            let row = Row::new(cur);
            b.rows.push(row);
            proof {
                assert(b@ =~= lines_of(text@));
            }
        } else {
            proof {
                assert(start == text@.len());
                assert(text@.take(start) =~= text@);
            }
        }
        b
    }
}

} // verus!
