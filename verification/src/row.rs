//! One line of a document. Each character is one grapheme and takes the
//! number of columns that `unicode-width` gives it; a row is drawn as the
//! sequence of its cells, a wide character filling several cells.
use vstd::prelude::*;
use crate::width::{char_width, grapheme_width};

verus! {

/// The longest row, in characters, that the editor keeps: its width in
/// columns then stays far below `usize::MAX`.
pub const MAX_ROW_CHARS: usize = 0x1fff_ffff;

/// A line of text.
pub struct Row {
    pub chars: Vec<char>,
}

impl View for Row {
    type V = Seq<char>;

    open spec fn view(&self) -> Seq<char> {
        self.chars@
    }
}

/// Columns taken by a sequence of characters.
pub open spec fn row_width(s: Seq<char>) -> nat
    decreases s.len(),
{
    if s.len() == 0 {
        0
    } else {
        row_width(s.drop_last()) + char_width(s.last())
    }
}

/// The cells of a row: every character repeated once per column it takes.
pub open spec fn cells(s: Seq<char>) -> Seq<char>
    decreases s.len(),
{
    if s.len() == 0 {
        Seq::empty()
    } else {
        cells(s.drop_last()) + Seq::new(char_width(s.last()), |i: int| s.last())
    }
}

/// The column at which the `k`-th character starts.
pub open spec fn start_col(s: Seq<char>, k: int) -> nat {
    row_width(s.take(k))
}

/// The columns at which the characters start, one per character.
pub open spec fn boundaries(s: Seq<char>) -> Seq<nat> {
    Seq::new(s.len(), |k: int| start_col(s, k))
}

/// The row with `c` inserted before the `pos`-th character (at the end when
/// `pos` is past it).
pub open spec fn inserted(s: Seq<char>, c: char, pos: int) -> Seq<char> {
    let p = if pos < s.len() { pos } else { s.len() as int };
    s.take(p) + seq![c] + s.skip(p)
}

/// The row without its `pos`-th character (unchanged when there is none).
pub open spec fn deleted(s: Seq<char>, pos: int) -> Seq<char> {
    if 0 <= pos < s.len() {
        s.take(pos) + s.skip(pos + 1)
    } else {
        s
    }
}

/// The characters that lie wholly between columns `start` and `end`.
pub open spec fn visible(s: Seq<char>, start: int, end: int) -> Seq<char>
    decreases s.len(),
{
    if s.len() == 0 {
        Seq::empty()
    } else {
        let before = s.drop_last();
        visible(before, start, end) + if start <= row_width(before) && row_width(s) <= end {
            seq![s.last()]
        } else {
            Seq::empty()
        }
    }
}

/// Widths add up over a concatenation.
pub proof fn lemma_width_concat(a: Seq<char>, b: Seq<char>)
    ensures
        row_width(a + b) == row_width(a) + row_width(b),
    decreases b.len(),
{
    if b.len() > 0 {
        assert((a + b).drop_last() =~= a + b.drop_last());
        lemma_width_concat(a, b.drop_last());
    } else {
        assert(a + b =~= a);
    }
}

/// Cells concatenate over a concatenation.
pub proof fn lemma_cells_concat(a: Seq<char>, b: Seq<char>)
    ensures
        cells(a + b) == cells(a) + cells(b),
    decreases b.len(),
{
    if b.len() > 0 {
        assert((a + b).drop_last() =~= a + b.drop_last());
        lemma_cells_concat(a, b.drop_last());
        assert(cells(a + b) =~= cells(a) + cells(b));
    } else {
        assert(a + b =~= a);
        assert(cells(a) + cells(b) =~= cells(a));
    }
}

/// A row takes as many cells as columns.
pub proof fn lemma_cells_len(s: Seq<char>)
    ensures
        cells(s).len() == row_width(s),
    decreases s.len(),
{
    if s.len() > 0 {
        lemma_cells_len(s.drop_last());
    }
}

/// Adding one character to a prefix adds that character's width.
pub proof fn lemma_width_take_step(s: Seq<char>, k: int)
    requires
        0 <= k < s.len(),
    ensures
        row_width(s.take(k + 1)) == row_width(s.take(k)) + char_width(s[k]),
        cells(s.take(k + 1)) == cells(s.take(k)) + Seq::new(char_width(s[k]), |i: int| s[k]),
{
    assert(s.take(k + 1).drop_last() =~= s.take(k));
}

/// The whole row is its own prefix.
pub proof fn lemma_take_all(s: Seq<char>)
    ensures
        s.take(s.len() as int) == s,
{
    assert(s.take(s.len() as int) =~= s);
}

/// Every cell is filled by a character that takes at least one column.
pub proof fn lemma_cells_positive(s: Seq<char>)
    ensures
        forall|i: int| 0 <= i < cells(s).len() ==> char_width(#[trigger] cells(s)[i]) >= 1,
    decreases s.len(),
{
    if s.len() > 0 {
        lemma_cells_positive(s.drop_last());
        let pre = cells(s.drop_last());
        let rep = Seq::new(char_width(s.last()), |i: int| s.last());
        assert forall|i: int| 0 <= i < cells(s).len() implies char_width(
            #[trigger] cells(s)[i],
        ) >= 1 by {
            if i < pre.len() {
                assert(cells(s)[i] == pre[i]);
            } else {
                assert(cells(s)[i] == rep[i - pre.len()]);
            }
        }
    }
}

/// Inserting a character adds its width to the row's.
pub proof fn lemma_width_inserted(s: Seq<char>, c: char, p: int)
    requires
        0 <= p <= s.len(),
    ensures
        row_width(inserted(s, c, p)) == row_width(s) + char_width(c),
{
    assert(s =~= s.take(p) + s.skip(p));
    lemma_width_concat(s.take(p), s.skip(p));
    lemma_width_concat(s.take(p), seq![c]);
    lemma_width_concat(s.take(p) + seq![c], s.skip(p));
    assert(seq![c].drop_last() =~= Seq::<char>::empty());
    assert(row_width(seq![c].drop_last()) == 0);
    assert(seq![c].last() == c);
}

/// A part of a sequence holds no newline when the sequence holds none.
pub proof fn lemma_no_newline_subrange(s: Seq<char>, i: int, j: int)
    requires
        0 <= i <= j <= s.len(),
        !s.contains('\n'),
    ensures
        !s.subrange(i, j).contains('\n'),
{
    if s.subrange(i, j).contains('\n') {
        let k = choose|k: int| 0 <= k < j - i && s.subrange(i, j)[k] == '\n';
        assert(s[i + k] == '\n');
    }
}

/// Two sequences without a newline join into one without a newline.
pub proof fn lemma_no_newline_concat(a: Seq<char>, b: Seq<char>)
    requires
        !a.contains('\n'),
        !b.contains('\n'),
    ensures
        !(a + b).contains('\n'),
{
    if (a + b).contains('\n') {
        let k = choose|k: int| 0 <= k < (a + b).len() && (a + b)[k] == '\n';
        if k < a.len() {
            assert(a[k] == '\n');
        } else {
            assert(b[k - a.len()] == '\n');
        }
    }
}

/// Inserting a character other than a newline, or deleting one, keeps a row
/// free of newlines.
pub proof fn lemma_edit_no_newline(s: Seq<char>, c: char, p: int)
    requires
        !s.contains('\n'),
        c != '\n',
        0 <= p,
    ensures
        !inserted(s, c, p).contains('\n'),
        !deleted(s, p).contains('\n'),
        inserted(s, c, p).len() == s.len() + 1,
        deleted(s, p).len() <= s.len(),
{
    if 0 <= p < s.len() {
        lemma_no_newline_subrange(s, 0, p);
        lemma_no_newline_subrange(s, p + 1, s.len() as int);
        lemma_no_newline_concat(s.take(p), s.skip(p + 1));
    }
    let pp = if p < s.len() { p } else { s.len() as int };
    {
        lemma_no_newline_subrange(s, 0, pp);
        lemma_no_newline_subrange(s, pp, s.len() as int);
        assert(!seq![c].contains('\n')) by {
            if seq![c].contains('\n') {
                let k = choose|k: int| 0 <= k < 1 && seq![c][k] == '\n';
            }
        }
        lemma_no_newline_concat(s.take(pp), seq![c]);
        lemma_no_newline_concat(s.take(pp) + seq![c], s.skip(pp));
    }
}

impl Row {
    /// A row holding the given characters.
    pub fn from(chars: Vec<char>) -> (r: Row)
        ensures
            r@ == chars@,
    {
        Row { chars }
    }

    /// An empty row.
    pub fn empty() -> (r: Row)
        ensures
            r@ == Seq::<char>::empty(),
    {
        Row { chars: Vec::new() }
    }

    /// A copy of the row.
    pub fn duplicate(&self) -> (r: Row)
        ensures
            r@ == self@,
    {
        let mut chars: Vec<char> = Vec::new();
        let mut i: usize = 0;
        while i < self.chars.len()
            invariant
                i <= self.chars.len(),
                chars@ == self@.take(i as int),
            decreases self.chars.len() - i,
        {
            chars.push(self.chars[i]);
            i += 1;
            assert(chars@ =~= self@.take(i as int));
        }
        proof {
            lemma_take_all(self@);
        }
        Row { chars }
    }

    /// The number of characters (graphemes) in the row.
    pub fn char_count(&self) -> (n: usize)
        ensures
            n == self@.len(),
    {
        self.chars.len()
    }

    /// The width of the row in columns.
    pub fn length(&self) -> (l: usize)
        requires
            self@.len() <= MAX_ROW_CHARS,
        ensures
            l == row_width(self@),
            l <= 2 * self@.len(),
    {
        let mut total: usize = 0;
        let mut k: usize = 0;
        while k < self.chars.len()
            invariant
                k <= self.chars.len(),
                self@.len() <= MAX_ROW_CHARS,
                total == row_width(self@.take(k as int)),
                total <= 2 * k,
            decreases self.chars.len() - k,
        {
            let w = grapheme_width(self.chars[k]);
            proof {
                lemma_width_take_step(self@, k as int);
            }
            total = total + w;
            k += 1;
        }
        proof {
            lemma_take_all(self@);
        }
        total
    }

    /// The character that fills cell `i`, if the row reaches that far.
    pub fn ext_char(&self, i: usize) -> (r: Option<char>)
        requires
            self@.len() <= MAX_ROW_CHARS,
        ensures
            r == (if i < cells(self@).len() {
                Some(cells(self@)[i as int])
            } else {
                None::<char>
            }),
    {
        let mut col: usize = 0;
        let mut k: usize = 0;
        proof {
            lemma_cells_len(self@);
        }
        while k < self.chars.len()
            invariant
                k <= self.chars.len(),
                self@.len() <= MAX_ROW_CHARS,
                col == row_width(self@.take(k as int)),
                col <= 2 * k,
                col <= i,
                cells(self@).len() == row_width(self@),
            decreases self.chars.len() - k,
        {
            let c = self.chars[k];
            let w = grapheme_width(c);
            proof {
                lemma_width_take_step(self@, k as int);
                lemma_cells_len(self@.take(k as int));
                lemma_cells_len(self@.take(k + 1));
                assert(self@ =~= self@.take(k + 1) + self@.skip(k + 1));
                lemma_cells_concat(self@.take(k + 1), self@.skip(k + 1));
            }
            if i < col + w {
                proof {
                    let pre = cells(self@.take(k as int));
                    assert(cells(self@)[i as int] == cells(self@.take(k + 1))[i as int]);
                    assert(cells(self@.take(k + 1))[i as int] == Seq::new(
                        char_width(self@[k as int]),
                        |j: int| self@[k as int],
                    )[i - pre.len()]);
                }
                return Some(c);
            }
            col = col + w;
            k += 1;
        }
        proof {
            lemma_take_all(self@);
        }
        None
    }

    /// The width of each character, in order.
    pub fn get_jumps(&self) -> (v: Vec<usize>)
        ensures
            v@.len() == self@.len(),
            forall|k: int| 0 <= k < v@.len() ==> v@[k] == char_width(#[trigger] self@[k]),
            forall|k: int| 0 <= k < v@.len() ==> #[trigger] v@[k] <= 2,
    {
        let mut v: Vec<usize> = Vec::new();
        let mut k: usize = 0;
        while k < self.chars.len()
            invariant
                k <= self.chars.len(),
                v@.len() == k,
                forall|j: int| 0 <= j < k ==> v@[j] == char_width(#[trigger] self@[j]),
                forall|j: int| 0 <= j < k ==> #[trigger] v@[j] <= 2,
            decreases self.chars.len() - k,
        {
            let w = grapheme_width(self.chars[k]);
            v.push(w);
            k += 1;
        }
        v
    }

    /// The column at which each character starts.
    pub fn boundaries(&self) -> (v: Vec<usize>)
        requires
            self@.len() <= MAX_ROW_CHARS,
        ensures
            v@.len() == self@.len(),
            forall|k: int| 0 <= k < v@.len() ==> v@[k] == start_col(self@, k),
    {
        let mut v: Vec<usize> = Vec::new();
        let mut col: usize = 0;
        let mut k: usize = 0;
        while k < self.chars.len()
            invariant
                k <= self.chars.len(),
                self@.len() <= MAX_ROW_CHARS,
                v@.len() == k,
                col == row_width(self@.take(k as int)),
                col <= 2 * k,
                forall|j: int| 0 <= j < k ==> v@[j] == start_col(self@, j),
            decreases self.chars.len() - k,
        {
            v.push(col);
            let w = grapheme_width(self.chars[k]);
            proof {
                lemma_width_take_step(self@, k as int);
            }
            col = col + w;
            k += 1;
        }
        v
    }

    /// Inserts `c` before the `pos`-th character (at the end when `pos` is
    /// past it).
    pub fn insert(&mut self, c: char, pos: usize)
        ensures
            final(self)@ == inserted(old(self)@, c, pos as int),
    {
        let p = if pos < self.chars.len() {
            pos
        } else {
            self.chars.len()
        };
        self.chars.insert(p, c);
        assert(self@ =~= inserted(old(self)@, c, pos as int));
    }

    /// Removes the `pos`-th character, if there is one.
    pub fn delete(&mut self, pos: usize)
        ensures
            final(self)@ == deleted(old(self)@, pos as int),
    {
        if pos < self.chars.len() {
            self.chars.remove(pos);
            assert(self@ =~= deleted(old(self)@, pos as int));
        }
    }

    /// The characters before and from the `at`-th character.
    pub fn split(&self, at: usize) -> (r: (Row, Row))
        requires
            at <= self@.len(),
        ensures
            r.0@ == self@.take(at as int),
            r.1@ == self@.skip(at as int),
    {
        let mut before: Vec<char> = Vec::new();
        let mut after: Vec<char> = Vec::new();
        let mut k: usize = 0;
        while k < self.chars.len()
            invariant
                k <= self.chars.len(),
                at <= self.chars.len(),
                before@ == self@.take(if k < at { k as int } else { at as int }),
                after@ == if k < at {
                    Seq::<char>::empty()
                } else {
                    self@.subrange(at as int, k as int)
                },
            decreases self.chars.len() - k,
        {
            if k < at {
                before.push(self.chars[k]);
            } else {
                after.push(self.chars[k]);
            }
            k += 1;
            assert(before@ =~= self@.take(if k < at { k as int } else { at as int }));
            assert(after@ =~= if k < at {
                Seq::<char>::empty()
            } else {
                self@.subrange(at as int, k as int)
            });
        }
        assert(after@ =~= self@.skip(at as int));
        (Row { chars: before }, Row { chars: after })
    }

    /// This row followed by `other`.
    pub fn joined(&self, other: &Row) -> (r: Row)
        ensures
            r@ == self@ + other@,
    {
        let mut r = self.duplicate();
        crate::text::append(&mut r.chars, &other.chars);
        r
    }

    /// The characters that lie wholly in the `width` columns from column
    /// `start` on.
    pub fn render(&self, start: usize, width: usize) -> (r: Vec<char>)
        requires
            self@.len() <= MAX_ROW_CHARS,
            start <= usize::MAX / 2,
            width <= usize::MAX / 2,
        ensures
            r@ == visible(self@, start as int, start + width),
    {
        let end = start + width;
        let mut r: Vec<char> = Vec::new();
        let mut col: usize = 0;
        let mut k: usize = 0;
        while k < self.chars.len()
            invariant
                k <= self.chars.len(),
                self@.len() <= MAX_ROW_CHARS,
                end == start + width,
                col == row_width(self@.take(k as int)),
                col <= 2 * k,
                r@ == visible(self@.take(k as int), start as int, end as int),
            decreases self.chars.len() - k,
        {
            let c = self.chars[k];
            let w = grapheme_width(c);
            proof {
                lemma_width_take_step(self@, k as int);
                assert(self@.take(k + 1).drop_last() =~= self@.take(k as int));
            }
            if start <= col && col + w <= end {
                r.push(c);
            }
            col = col + w;
            k += 1;
        }
        proof {
            lemma_take_all(self@);
        }
        r
    }
}

} // verus!
