//! A document: its rows, its name and the path it is saved to. The text of a
//! file is its rows joined by newlines.
use vstd::prelude::*;
use crate::row::{Row, MAX_ROW_CHARS};
use crate::text::{chars_of, append, copy_of};

verus! {

/// The most rows a document holds.
pub const MAX_ROWS: usize = 0x1fff_ffff;

/// A document.
pub struct Document {
    pub rows: Vec<Row>,
    pub name: Vec<char>,
    pub path: Vec<char>,
}

/// The texts of a sequence of rows.
pub open spec fn rows_view(rows: Seq<Row>) -> Seq<Seq<char>> {
    rows.map_values(|r: Row| r@)
}

/// The lines of a text: the pieces between newlines (one empty line for an
/// empty text, and one after a final newline).
pub open spec fn split_lines(t: Seq<char>) -> Seq<Seq<char>>
    decreases t.len(),
{
    if t.len() == 0 {
        seq![Seq::<char>::empty()]
    } else if t.last() == '\n' {
        split_lines(t.drop_last()).push(Seq::<char>::empty())
    } else {
        let ls = split_lines(t.drop_last());
        ls.update(ls.len() - 1, ls.last().push(t.last()))
    }
}

/// Lines joined by newlines.
pub open spec fn join_lines(rows: Seq<Seq<char>>) -> Seq<char>
    decreases rows.len(),
{
    if rows.len() == 0 {
        Seq::empty()
    } else if rows.len() == 1 {
        rows[0]
    } else {
        join_lines(rows.drop_last()) + seq!['\n'] + rows.last()
    }
}

/// No row holds a newline, and each is short enough to be measured.
pub open spec fn rows_ok(rows: Seq<Seq<char>>) -> bool {
    forall|i: int|
        0 <= i < rows.len() ==> (#[trigger] rows[i]).len() <= MAX_ROW_CHARS && !rows[i].contains(
            '\n',
        )
}

/// Replacing, inserting or removing rows keeps them in bounds and free of
/// newlines when the rows put in are.
pub proof fn lemma_rows_ok_edit(rows: Seq<Seq<char>>, i: int, r: Seq<char>)
    requires
        rows_ok(rows),
        r.len() <= MAX_ROW_CHARS,
        !r.contains('\n'),
    ensures
        0 <= i < rows.len() ==> rows_ok(rows.update(i, r)),
        0 <= i <= rows.len() ==> rows_ok(rows.insert(i, r)),
        0 <= i < rows.len() ==> rows_ok(rows.remove(i)),
{
    if 0 <= i < rows.len() {
        assert forall|j: int| 0 <= j < rows.update(i, r).len() implies (#[trigger] rows.update(
            i,
            r,
        )[j]).len() <= MAX_ROW_CHARS && !rows.update(i, r)[j].contains('\n') by {
            if j != i {
                assert(rows.update(i, r)[j] == rows[j]);
            }
        }
        assert forall|j: int| 0 <= j < rows.remove(i).len() implies (#[trigger] rows.remove(
            i,
        )[j]).len() <= MAX_ROW_CHARS && !rows.remove(i)[j].contains('\n') by {
            if j < i {
                assert(rows.remove(i)[j] == rows[j]);
            } else {
                assert(rows.remove(i)[j] == rows[j + 1]);
            }
        }
    }
    if 0 <= i <= rows.len() {
        assert forall|j: int| 0 <= j < rows.insert(i, r).len() implies (#[trigger] rows.insert(
            i,
            r,
        )[j]).len() <= MAX_ROW_CHARS && !rows.insert(i, r)[j].contains('\n') by {
            if j < i {
                assert(rows.insert(i, r)[j] == rows[j]);
            } else if j > i {
                assert(rows.insert(i, r)[j] == rows[j - 1]);
            }
        }
    }
}

/// A text the editor can hold: at most `MAX_ROWS` lines, none longer than
/// `MAX_ROW_CHARS` characters.
pub open spec fn text_fits(t: Seq<char>) -> bool {
    &&& split_lines(t).len() <= MAX_ROWS
    &&& forall|i: int|
        0 <= i < split_lines(t).len() ==> (#[trigger] split_lines(t)[i]).len() <= MAX_ROW_CHARS
}

/// The lines of a text that fits are rows the editor can hold.
pub proof fn lemma_fitting_rows(t: Seq<char>)
    requires
        text_fits(t),
    ensures
        rows_ok(split_lines(t)),
        1 <= split_lines(t).len() <= MAX_ROWS,
{
    lemma_split_lines_shape(t);
}

/// Whether the editor can hold a text (see `text_fits`).
pub fn fits(text: &Vec<char>) -> (ok: bool)
    ensures
        ok == text_fits(text@),
{
    let d = Document::from_text(&Vec::new(), text);
    if d.rows.len() > MAX_ROWS {
        return false;
    }
    let mut i: usize = 0;
    while i < d.rows.len()
        invariant
            i <= d.rows.len(),
            d.lines() == split_lines(text@),
            forall|j: int| 0 <= j < i ==> (#[trigger] split_lines(text@)[j]).len() <= MAX_ROW_CHARS,
        decreases d.rows.len() - i,
    {
        assert(d.rows@[i as int]@ == split_lines(text@)[i as int]);
        if d.rows[i].char_count() > MAX_ROW_CHARS {
            return false;
        }
        i += 1;
    }
    true
}

/// The extension of a file name: what follows its last dot, if it has one.
pub open spec fn extension(s: Seq<char>) -> Option<Seq<char>>
    decreases s.len(),
{
    if s.len() == 0 {
        None
    } else if s.last() == '.' {
        Some(Seq::empty())
    } else {
        match extension(s.drop_last()) {
            Some(e) => Some(e.push(s.last())),
            None => None,
        }
    }
}

/// The kind of file a name denotes, by its extension.
pub open spec fn file_type(name: Seq<char>) -> Seq<char> {
    match extension(name) {
        Some(e) => if e == "rs"@ {
            "Rust"@
        } else if e == "py"@ {
            "Python"@
        } else if e == "md"@ {
            "Markdown"@
        } else if e == "toml"@ {
            "TOML"@
        } else if e == "txt"@ {
            "Text"@
        } else {
            "Unknown"@
        },
        None => "Unknown"@,
    }
}

/// The lines of a text hold no newline, and there are at most one more
/// than the text's length.
pub proof fn lemma_split_lines_shape(t: Seq<char>)
    ensures
        split_lines(t).len() >= 1,
        split_lines(t).len() <= t.len() + 1,
        forall|i: int|
            0 <= i < split_lines(t).len() ==> (#[trigger] split_lines(t)[i]).len() <= t.len()
                && !split_lines(t)[i].contains('\n'),
    decreases t.len(),
{
    if t.len() > 0 {
        lemma_split_lines_shape(t.drop_last());
        let ls = split_lines(t.drop_last());
        if t.last() != '\n' {
            assert forall|i: int| 0 <= i < split_lines(t).len() implies !(
            #[trigger] split_lines(t)[i]).contains('\n') by {
                if i == ls.len() - 1 {
                    let l = ls.last().push(t.last());
                    if l.contains('\n') {
                        let j = choose|j: int| 0 <= j < l.len() && l[j] == '\n';
                        if j < ls.last().len() {
                            assert(ls.last()[j] == '\n');
                        }
                    }
                }
            }
        } else {
            assert forall|i: int| 0 <= i < split_lines(t).len() implies !(
            #[trigger] split_lines(t)[i]).contains('\n') by {
                if i < ls.len() {
                    assert(split_lines(t)[i] == ls[i]);
                }
            }
        }
    }
}

/// Splitting lines off `a`, a newline and a line `b` adds `b` after the lines
/// of `a`.
proof fn lemma_split_after_newline(a: Seq<char>, b: Seq<char>)
    requires
        !b.contains('\n'),
    ensures
        split_lines(a + seq!['\n'] + b) == split_lines(a).push(b),
    decreases b.len(),
{
    if b.len() == 0 {
        assert(b =~= Seq::<char>::empty());
        assert(a + seq!['\n'] + b =~= a.push('\n'));
        assert((a + seq!['\n'] + b).drop_last() =~= a);
        assert((a + seq!['\n'] + b).last() == '\n');
    } else {
        let t = a + seq!['\n'] + b;
        assert(t.drop_last() =~= a + seq!['\n'] + b.drop_last());
        assert(!b.drop_last().contains('\n')) by {
            if b.drop_last().contains('\n') {
                let j = choose|j: int| 0 <= j < b.drop_last().len() && b.drop_last()[j] == '\n';
                assert(b[j] == '\n');
            }
        }
        lemma_split_after_newline(a, b.drop_last());
        assert(t.last() == b.last());
        assert(b.last() != '\n') by {
            assert(b[b.len() - 1] == b.last());
        }
        assert(b.drop_last().push(b.last()) =~= b);
        assert(split_lines(t) =~= split_lines(a).push(b));
    }
}

/// The lines of a single line are that line.
proof fn lemma_split_single(b: Seq<char>)
    requires
        !b.contains('\n'),
    ensures
        split_lines(b) == seq![b],
    decreases b.len(),
{
    if b.len() > 0 {
        assert(!b.drop_last().contains('\n')) by {
            if b.drop_last().contains('\n') {
                let j = choose|j: int| 0 <= j < b.drop_last().len() && b.drop_last()[j] == '\n';
                assert(b[j] == '\n');
            }
        }
        lemma_split_single(b.drop_last());
        assert(b.last() != '\n') by {
            assert(b[b.len() - 1] == b.last());
        }
        assert(b.drop_last().push(b.last()) =~= b);
        assert(split_lines(b) =~= seq![b]);
    } else {
        assert(b =~= Seq::<char>::empty());
        assert(split_lines(b) =~= seq![b]);
    }
}

/// Saving then opening gives back the same rows: splitting the joined text
/// of rows that hold no newline yields those rows.
pub proof fn lemma_split_join(rows: Seq<Seq<char>>)
    requires
        rows.len() >= 1,
        forall|i: int| 0 <= i < rows.len() ==> !(#[trigger] rows[i]).contains('\n'),
    ensures
        split_lines(join_lines(rows)) == rows,
    decreases rows.len(),
{
    if rows.len() == 1 {
        lemma_split_single(rows[0]);
        assert(seq![rows[0]] =~= rows);
    } else {
        let init = rows.drop_last();
        assert forall|i: int| 0 <= i < init.len() implies !(#[trigger] init[i]).contains('\n') by {
            assert(init[i] == rows[i]);
        }
        lemma_split_join(init);
        assert(!rows.last().contains('\n')) by {
            assert(rows[rows.len() - 1] == rows.last());
        }
        lemma_split_after_newline(join_lines(init), rows.last());
        assert(init.push(rows.last()) =~= rows);
    }
}

/// Opening then saving gives back the same text: joining the lines of a
/// text yields the text.
pub proof fn lemma_join_split(t: Seq<char>)
    ensures
        join_lines(split_lines(t)) == t,
    decreases t.len(),
{
    if t.len() > 0 {
        lemma_join_split(t.drop_last());
        lemma_split_lines_shape(t.drop_last());
        let ls = split_lines(t.drop_last());
        if t.last() == '\n' {
            let l2 = ls.push(Seq::<char>::empty());
            assert(l2.drop_last() =~= ls);
            assert(join_lines(l2) =~= t);
        } else {
            let l2 = ls.update(ls.len() - 1, ls.last().push(t.last()));
            if ls.len() == 1 {
                assert(ls[0] == ls.last());
                assert(join_lines(ls) == ls[0]);
                assert(l2.len() == 1);
                assert(l2[0] == ls[0].push(t.last()));
                assert(t.drop_last().push(t.last()) =~= t);
                assert(join_lines(l2) =~= t);
            } else {
                assert(l2.drop_last() =~= ls.drop_last());
                assert(join_lines(ls) == join_lines(ls.drop_last()) + seq!['\n'] + ls.last());
                assert(l2.len() == ls.len());
                assert(l2.last() == ls.last().push(t.last()));
                assert(join_lines(l2) == join_lines(l2.drop_last()) + seq!['\n'] + l2.last());
                assert(join_lines(l2) =~= join_lines(ls).push(t.last()));
                assert(t.drop_last().push(t.last()) =~= t);
            }
        }
    }
}

/// Compares a vector of characters with a string slice.
fn same_chars(a: &Vec<char>, b: &str) -> (r: bool)
    ensures
        r == (a@ == b@),
{
    let bv = chars_of(b);
    if a.len() != bv.len() {
        assert(a@.len() != b@.len());
        return false;
    }
    let mut i: usize = 0;
    while i < a.len()
        invariant
            a.len() == bv.len(),
            bv@ == b@,
            i <= a.len(),
            forall|j: int| 0 <= j < i ==> a@[j] == b@[j],
        decreases a.len() - i,
    {
        if a[i] != bv[i] {
            assert(a@[i as int] != b@[i as int]);
            return false;
        }
        i += 1;
    }
    assert(a@ =~= b@);
    true
}

impl Document {
    /// The rows' texts.
    pub open spec fn lines(&self) -> Seq<Seq<char>> {
        rows_view(self.rows@)
    }

    /// An empty, unnamed document with one empty row.
    pub fn new() -> (d: Document)
        ensures
            d.lines() == seq![Seq::<char>::empty()],
            d.name@ == "[No name]"@,
            d.path@ == Seq::<char>::empty(),
    {
        let mut rows = Vec::new();
        rows.push(Row::empty());
        let d = Document { rows, name: chars_of("[No name]"), path: Vec::new() };
        assert(d.lines() =~= seq![Seq::<char>::empty()]);
        d
    }

    /// The document read from `path`, whose file held `text`.
    pub fn from_text(path: &Vec<char>, text: &Vec<char>) -> (d: Document)
        ensures
            d.lines() == split_lines(text@),
            d.name@ == path@,
            d.path@ == path@,
    {
        let mut rows: Vec<Row> = Vec::new();
        let mut cur: Vec<char> = Vec::new();
        let mut k: usize = 0;
        while k < text.len()
            invariant
                k <= text.len(),
                rows_view(rows@).push(cur@) == split_lines(text@.take(k as int)),
            decreases text.len() - k,
        {
            let c = text[k];
            let ghost before = text@.take(k as int);
            proof {
                assert(text@.take(k + 1).drop_last() =~= before);
            }
            if c == '\n' {
                rows.push(Row::from(cur));
                cur = Vec::new();
                assert(rows_view(rows@).push(cur@) =~= split_lines(text@.take(k + 1)));
            } else {
                cur.push(c);
                assert(rows_view(rows@).push(cur@) =~= split_lines(text@.take(k + 1)));
            }
            k += 1;
        }
        rows.push(Row::from(cur));
        assert(text@.take(text.len() as int) =~= text@);
        let d = Document { rows, name: copy_of(path), path: copy_of(path) };
        assert(d.lines() =~= split_lines(text@));
        d
    }

    /// The text written when the document is saved: its rows joined by
    /// newlines.
    pub fn contents(&self) -> (t: Vec<char>)
        ensures
            t@ == join_lines(self.lines()),
    {
        let mut t: Vec<char> = Vec::new();
        let mut i: usize = 0;
        while i < self.rows.len()
            invariant
                i <= self.rows.len(),
                t@ == join_lines(self.lines().take(i as int)),
            decreases self.rows.len() - i,
        {
            proof {
                let ls = self.lines().take(i + 1);
                assert(ls.drop_last() =~= self.lines().take(i as int));
                assert(ls.last() == self.rows@[i as int]@);
            }
            if i > 0 {
                t.push('\n');
            } else {
                assert(t@ + self.rows@[0]@ =~= self.rows@[0]@);
            }
            append(&mut t, &self.rows[i].chars);
            i += 1;
        }
        assert(self.lines().take(self.rows.len() as int) =~= self.lines());
        t
    }

    /// The kind of file the document is, by its name's extension.
    pub fn identify(&self) -> (r: Vec<char>)
        ensures
            r@ == file_type(self.name@),
    {
        let n = self.name.len();
        let mut k: usize = n;
        while k > 0 && self.name[k - 1] != '.'
            invariant
                k <= n,
                n == self.name@.len(),
                forall|j: int| k <= j < n ==> self.name@[j] != '.',
            decreases k,
        {
            k -= 1;
        }
        proof {
            lemma_extension(self.name@, k as int);
        }
        if k == 0 {
            return chars_of("Unknown");
        }
        let mut ext: Vec<char> = Vec::new();
        let mut i: usize = k;
        while i < n
            invariant
                k <= i <= n,
                n == self.name@.len(),
                ext@ == self.name@.subrange(k as int, i as int),
            decreases n - i,
        {
            ext.push(self.name[i]);
            i += 1;
            assert(ext@ =~= self.name@.subrange(k as int, i as int));
        }
        if same_chars(&ext, "rs") {
            chars_of("Rust")
        } else if same_chars(&ext, "py") {
            chars_of("Python")
        } else if same_chars(&ext, "md") {
            chars_of("Markdown")
        } else if same_chars(&ext, "toml") {
            chars_of("TOML")
        } else if same_chars(&ext, "txt") {
            chars_of("Text")
        } else {
            chars_of("Unknown")
        }
    }
}

impl Document {
    /// Replaces row `i`.
    pub fn set_row(&mut self, i: usize, r: Row)
        requires
            i < old(self).rows@.len(),
        ensures
            final(self).lines() == old(self).lines().update(i as int, r@),
            final(self).name == old(self).name,
            final(self).path == old(self).path,
    {
        self.rows.set(i, r);
        assert(self.lines() =~= old(self).lines().update(i as int, r@));
    }

    /// Inserts a row before row `i`.
    pub fn insert_row(&mut self, i: usize, r: Row)
        requires
            i <= old(self).rows@.len(),
        ensures
            final(self).lines() == old(self).lines().insert(i as int, r@),
            final(self).name == old(self).name,
            final(self).path == old(self).path,
    {
        self.rows.insert(i, r);
        assert(self.lines() =~= old(self).lines().insert(i as int, r@));
    }

    /// Removes row `i`.
    pub fn remove_row(&mut self, i: usize)
        requires
            i < old(self).rows@.len(),
        ensures
            final(self).lines() == old(self).lines().remove(i as int),
            final(self).name == old(self).name,
            final(self).path == old(self).path,
    {
        self.rows.remove(i);
        assert(self.lines() =~= old(self).lines().remove(i as int));
    }
}

/// The extension is what follows the last dot; there is none without a dot.
proof fn lemma_extension(s: Seq<char>, k: int)
    requires
        0 <= k <= s.len(),
        forall|j: int| k <= j < s.len() ==> s[j] != '.',
        k > 0 ==> s[k - 1] == '.',
    ensures
        extension(s) == (if k == 0 {
            None::<Seq<char>>
        } else {
            Some(s.subrange(k, s.len() as int))
        }),
    decreases s.len(),
{
    if s.len() == 0 {
    } else if s.len() == k {
        assert(s.last() == '.');
        assert(s.subrange(k, s.len() as int) =~= Seq::<char>::empty());
    } else {
        assert(s.last() != '.') by {
            assert(s[s.len() - 1] == s.last());
        }
        lemma_extension(s.drop_last(), k);
        if k > 0 {
            assert(s.drop_last().subrange(k, s.len() - 1).push(s.last()) =~= s.subrange(
                k,
                s.len() as int,
            ));
        }
    }
}

} // verus!
