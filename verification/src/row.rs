//! One line of text and its tab-expanded rendered form.
//!
//! A row stores its raw content bytes and a derived `rendered` form in which
//! every tab is replaced by one to `TAB_STOP` spaces, enough to reach the next
//! multiple of `TAB_STOP`. The rendered form is recomputed on every mutation,
//! so it is never stale.

use vstd::prelude::*;

verus! {

/// Tab stops sit at every multiple of this column count.
pub const TAB_STOP: usize = 8;

/// The byte value of a tab character.
pub const TAB: u8 = 9;

/// The byte value of a space character.
pub const SPACE: u8 = 32;

/// How many cells a tab starting at render column `col` occupies: the
/// distance to the next multiple of `TAB_STOP`, always between 1 and
/// `TAB_STOP`.
pub open spec fn tab_width(col: int) -> int {
    TAB_STOP as int - (col % (TAB_STOP as int))
}

/// A run of `n` spaces.
pub open spec fn spaces(n: int) -> Seq<u8> {
    Seq::new(n as nat, |i: int| SPACE)
}

/// The rendered form of content bytes `s` when their first character starts
/// at render column `col`: tabs expand to spaces up to the next tab stop,
/// every other byte is kept as it is.
pub open spec fn render_from(s: Seq<u8>, col: int) -> Seq<u8>
    decreases s.len(),
{
    if s.len() == 0 {
        Seq::empty()
    } else if s[0] == TAB {
        spaces(tab_width(col)) + render_from(s.drop_first(), col + tab_width(col))
    } else {
        seq![s[0]] + render_from(s.drop_first(), col + 1)
    }
}

/// The rendered form of a whole row, which starts at render column 0.
pub open spec fn render_of(s: Seq<u8>) -> Seq<u8> {
    render_from(s, 0)
}

/// Rendering one character at column `col` yields its expansion.
pub proof fn lemma_render_from_single(c: u8, col: int)
    ensures
        render_from(seq![c], col) == if c == TAB {
            spaces(tab_width(col))
        } else {
            seq![c]
        },
{
    assert(seq![c].len() == 1);
    assert(seq![c][0] == c);
    assert(seq![c].drop_first() =~= Seq::<u8>::empty());
    assert(forall|k: int| render_from(Seq::<u8>::empty(), k) == Seq::<u8>::empty());
    if c == TAB {
        assert(render_from(seq![c], col) == spaces(tab_width(col)) + render_from(
            seq![c].drop_first(),
            col + tab_width(col),
        ));
        assert(spaces(tab_width(col)) + Seq::<u8>::empty() =~= spaces(tab_width(col)));
    } else {
        assert(render_from(seq![c], col) == seq![c] + render_from(
            seq![c].drop_first(),
            col + 1,
        ));
        assert(seq![c] + Seq::<u8>::empty() =~= seq![c]);
    }
}

/// Rendering distributes over concatenation: the second part starts at the
/// column where the first part's rendering ends.
pub proof fn lemma_render_from_concat(s: Seq<u8>, t: Seq<u8>, col: int)
    ensures
        render_from(s + t, col) == render_from(s, col) + render_from(
            t,
            col + render_from(s, col).len(),
        ),
    decreases s.len(),
{
    if s.len() == 0 {
        assert(s + t =~= t);
        assert(Seq::<u8>::empty() + render_from(t, col) =~= render_from(t, col));
    } else {
        let s1 = s.drop_first();
        assert((s + t).len() > 0);
        assert((s + t)[0] == s[0]);
        assert((s + t).drop_first() =~= s1 + t);
        if s[0] == TAB {
            let w = tab_width(col);
            lemma_render_from_concat(s1, t, col + w);
            let mid = col + w + render_from(s1, col + w).len();
            assert(spaces(w) + (render_from(s1, col + w) + render_from(t, mid)) =~= (spaces(w)
                + render_from(s1, col + w)) + render_from(t, mid));
            assert(spaces(w).len() == w);
        } else {
            lemma_render_from_concat(s1, t, col + 1);
            let mid = col + 1 + render_from(s1, col + 1).len();
            assert(seq![s[0]] + (render_from(s1, col + 1) + render_from(t, mid)) =~= (seq![s[0]]
                + render_from(s1, col + 1)) + render_from(t, mid));
        }
    }
}

/// The rendered form of a row decomposes at any content index `i`: what comes
/// before `i` renders first, and the rest starts at the column where that
/// prefix ends.
pub proof fn lemma_render_decompose(s: Seq<u8>, i: int)
    requires
        0 <= i <= s.len(),
    ensures
        render_of(s) == render_of(s.take(i)) + render_from(
            s.skip(i),
            render_of(s.take(i)).len() as int,
        ),
{
    assert(s =~= s.take(i) + s.skip(i));
    lemma_render_from_concat(s.take(i), s.skip(i), 0);
}

/// A prefix of the content never renders longer than the whole content.
pub proof fn lemma_render_prefix_len(s: Seq<u8>, i: int)
    requires
        0 <= i <= s.len(),
    ensures
        render_of(s.take(i)).len() <= render_of(s).len(),
{
    lemma_render_decompose(s, i);
}

/// Extending the rendered prefix by one character appends that character's
/// expansion at the column where the prefix ends.
pub proof fn lemma_render_take_step(s: Seq<u8>, i: int)
    requires
        0 <= i < s.len(),
    ensures
        render_of(s.take(i + 1)) == render_of(s.take(i)) + (if s[i] == TAB {
            spaces(tab_width(render_of(s.take(i)).len() as int))
        } else {
            seq![s[i]]
        }),
{
    assert(s.take(i + 1) =~= s.take(i) + seq![s[i]]);
    lemma_render_from_concat(s.take(i), seq![s[i]], 0);
    lemma_render_from_single(s[i], render_of(s.take(i)).len() as int);
}

/// Computes the rendered form of `content`, expanding each tab with spaces to
/// the next multiple of `TAB_STOP`.
pub fn render_content(content: &Vec<u8>) -> (r: Vec<u8>)
    ensures
        r@ == render_of(content@),
{
    let mut r: Vec<u8> = Vec::new();
    let mut i: usize = 0;
    proof {
        assert(content@.take(0) =~= Seq::<u8>::empty());
    }
    while i < content.len()
        invariant
            i <= content@.len(),
            r@ == render_of(content@.take(i as int)),
        decreases content@.len() - i,
    {
        let c = content[i];
        proof {
            lemma_render_take_step(content@, i as int);
        }
        if c == TAB {
            let w = TAB_STOP - (r.len() % TAB_STOP);
            let ghost pre = r@;
            let mut j: usize = 0;
            while j < w
                invariant
                    j <= w,
                    w == tab_width(pre.len() as int),
                    r@ == pre + spaces(j as int),
                decreases w - j,
            {
                r.push(SPACE);
                proof {
                    assert(pre + spaces(j as int) + seq![SPACE] =~= pre + spaces(j as int + 1));
                }
                j += 1;
            }
            proof {
                assert(r@ == pre + spaces(tab_width(pre.len() as int)));
            }
        } else {
            r.push(c);
        }
        i += 1;
    }
    proof {
        assert(content@.take(content@.len() as int) =~= content@);
    }
    r
}

/// One line of the buffer: its content bytes and their rendered form.
pub struct Row {
    /// The raw bytes of the line, without a trailing newline.
    pub content: Vec<u8>,
    /// The tab-expanded form of `content`, kept in sync on every mutation.
    pub rendered: Vec<u8>,
}

impl Row {
    /// The rendered form matches the content.
    pub open spec fn wf(self) -> bool {
        self.rendered@ == render_of(self.content@)
    }

    /// Makes a row from its content, computing the rendered form.
    pub fn new(content: Vec<u8>) -> (r: Row)
        ensures
            r.wf(),
            r.content@ == content@,
    {
        let rendered = render_content(&content);
        Row { content, rendered }
    }

    /// Inserts byte `c` at column `at`, clamped to the row length.
    pub fn insert_char(&mut self, at: usize, c: u8)
        requires
            old(self).wf(),
        ensures
            final(self).wf(),
            final(self).content@ == old(self).content@.insert(
                if at <= old(self).content@.len() {
                    at as int
                } else {
                    old(self).content@.len() as int
                },
                c,
            ),
    {
        let pos = if at <= self.content.len() {
            at
        } else {
            self.content.len()
        };
        self.content.insert(pos, c);
        self.rendered = render_content(&self.content);
    }

    /// Removes the byte at column `at`; does nothing when `at` is out of
    /// range.
    pub fn delete_char(&mut self, at: usize)
        requires
            old(self).wf(),
        ensures
            final(self).wf(),
            final(self).content@ == if at < old(self).content@.len() {
                old(self).content@.remove(at as int)
            } else {
                old(self).content@
            },
    {
        if at < self.content.len() {
            self.content.remove(at);
            self.rendered = render_content(&self.content);
        }
    }

    /// Appends `text` to the end of the row.
    pub fn append(&mut self, text: &[u8])
        requires
            old(self).wf(),
        ensures
            final(self).wf(),
            final(self).content@ == old(self).content@ + text@,
    {
        self.content.extend_from_slice(text);
        self.rendered = render_content(&self.content);
    }

    /// Truncates the row at column `at` and returns the cut-off remainder as
    /// a new row.
    pub fn split_off(&mut self, at: usize) -> (rest: Row)
        requires
            old(self).wf(),
            at <= old(self).content@.len(),
        ensures
            final(self).wf(),
            rest.wf(),
            final(self).content@ == old(self).content@.take(at as int),
            rest.content@ == old(self).content@.skip(at as int),
    {
        let tail = self.content.split_off(at);
        self.rendered = render_content(&self.content);
        proof {
            assert(self.content@ =~= old(self).content@.take(at as int));
            assert(tail@ =~= old(self).content@.skip(at as int));
        }
        Row::new(tail)
    }

    /// The number of content bytes in the row.
    pub fn len(&self) -> (n: usize)
        ensures
            n == self.content@.len(),
    {
        self.content.len()
    }
}

} // verus!
