//! Properties of the editor that hold across events.
use vstd::prelude::*;
use crate::model::{
    EditorState, ModeView, ActionView, Type, Key, Event, Subject, Purpose, step, move_cursor,
    prompting, resize, sub_sat, end, right, left,
    put_char, touched, backspace, character, saved, saved_as, opened, settle, snap,
    prevent_split, recalc, steps_back,
};
use crate::frame::{welcome_line, bg, status_fg, reset_fg, reset_bg, frame, frame_line, welcome_at, with_background};
use crate::text::spaces;
use crate::document::{lemma_split_join};
use crate::row::{
    row_width, cells, inserted, deleted, visible, lemma_width_concat, lemma_cells_positive,
    lemma_cells_len, lemma_width_inserted, boundaries, start_col, lemma_width_take_step,
    lemma_cells_concat,
};
use crate::width::char_width;

verus! {

/// Once the editor has quit, no event changes it.
pub proof fn law_quit_is_final(s: EditorState, e: Event)
    requires
        s.quit,
    ensures
        step(s, e) == (s, ActionView::Redraw),
{
}

/// With nothing unsaved, Ctrl+Q quits at once.
pub proof fn law_clean_quit(s: EditorState)
    requires
        !s.quit,
        s.mode is Normal,
        !s.dirty,
    ensures
        step(s, Event::Key(Key::Ctrl('q'))).0.quit,
{
}

/// Unsaved changes are never dropped without a question: on an edited
/// document, Ctrl+Q, Ctrl+N and Ctrl+O keep the document, do not quit, and
/// ask for confirmation with a warning.
pub proof fn law_unsaved_changes_ask(s: EditorState, c: char)
    requires
        !s.quit,
        s.mode is Normal,
        s.dirty,
        c == 'q' || c == 'n' || c == 'o',
    ensures
        ({
            let t = step(s, Event::Key(Key::Ctrl(c))).0;
            &&& t.rows == s.rows
            &&& t.name == s.name
            &&& t.path == s.path
            &&& !t.quit
            &&& t.mode is Confirm
            &&& t.msg == Type::Warning
        }),
{
}

/// A confirmation answered by any key other than return or the subject's
/// own control key keeps the document and the editor running.
pub proof fn law_cancel_keeps_document(s: EditorState, sub: Subject, k: Key)
    requires
        !s.quit,
        s.mode == ModeView::Confirm(sub),
        k != Key::Char('\n'),
        k != Key::Ctrl(crate::model::subject_key(sub)),
    ensures
        ({
            let t = step(s, Event::Key(k)).0;
            &&& t.rows == s.rows
            &&& t.dirty == s.dirty
            &&& !t.quit
            &&& t.mode is Normal
        }),
{
}

/// Moving the cursor never edits the document.
pub proof fn law_moves_keep_text(s: EditorState, k: Key)
    ensures
        move_cursor(s, k).rows == s.rows,
        move_cursor(s, k).name == s.name,
        move_cursor(s, k).path == s.path,
        move_cursor(s, k).dirty == s.dirty,
{
    lemma_move_frame(s, k);
}

/// Moving the cursor changes only the cursor, the scroll offset and the
/// grapheme count: not the quit flag, the welcome flag, the message, the
/// mode or the terminal size. A key that is not a movement key moves nothing.
pub proof fn law_moves_keep_the_rest(s: EditorState, k: Key)
    ensures
        same_but_cursor(move_cursor(s, k), s),
        !is_move(k) ==> move_cursor(s, k) == s,
{
    lemma_move_frame(s, k);
}

/// The movement keys.
pub open spec fn is_move(k: Key) -> bool {
    match k {
        Key::Down | Key::Up | Key::Right | Key::Left | Key::PageUp | Key::PageDown | Key::Home
        | Key::End => true,
        _ => false,
    }
}

/// Two states that differ at most in the cursor, the scroll offset and the
/// grapheme count.
pub open spec fn same_but_cursor(a: EditorState, b: EditorState) -> bool {
    &&& a.quit == b.quit
    &&& a.show_welcome == b.show_welcome
    &&& a.dirty == b.dirty
    &&& a.msg == b.msg
    &&& a.text == b.text
    &&& a.width == b.width
    &&& a.height == b.height
    &&& a.rows == b.rows
    &&& a.name == b.name
    &&& a.path == b.path
    &&& a.mode == b.mode
}

/// Two states that differ at most in the cursor's column, the horizontal
/// offset and the grapheme count.
pub open spec fn same_but_column(a: EditorState, b: EditorState) -> bool {
    &&& same_but_cursor(a, b)
    &&& a.cy == b.cy
    &&& a.oy == b.oy
}

proof fn lemma_settle_frame(s: EditorState)
    ensures
        same_but_column(settle(s), s),
        same_but_column(snap(s), s),
        same_but_column(prevent_split(s), s),
        same_but_column(recalc(s), s),
{
}

proof fn lemma_move_frame(s: EditorState, k: Key)
    ensures
        same_but_cursor(move_cursor(s, k), s),
        !is_move(k) ==> move_cursor(s, k) == s,
{
    match k {
        Key::Down => {
            let d = if s.cy == s.bottom() {
                EditorState { oy: crate::model::add_sat(s.oy, 1), ..s }
            } else {
                EditorState { cy: crate::model::add_sat(s.cy, 1), ..s }
            };
            lemma_settle_frame(d);
        },
        Key::Up => {
            let d = if s.cy == 0 {
                EditorState { oy: sub_sat(s.oy, 1), ..s }
            } else {
                EditorState { cy: sub_sat(s.cy, 1), ..s }
            };
            lemma_settle_frame(d);
        },
        Key::PageUp => lemma_settle_frame(EditorState { cy: 0, ..s }),
        Key::PageDown => lemma_settle_frame(
            EditorState { cy: crate::model::page_down_line(s), ..s },
        ),
        _ => {},
    }
}

/// Stepping back from a column ends on a character start or on column zero,
/// and never steps past zero.
pub proof fn lemma_steps_back_lands(bs: Seq<nat>, i: nat)
    ensures
        steps_back(bs, i) <= i,
        bs.contains((i - steps_back(bs, i)) as nat) || i - steps_back(bs, i) == 0,
    decreases i,
{
    if !(bs.contains(i) || i == 0) {
        lemma_steps_back_step(bs, i);
        lemma_steps_back_lands(bs, (i - 1) as nat);
    }
}

proof fn lemma_steps_back_step(bs: Seq<nat>, i: nat)
    requires
        !bs.contains(i),
        i != 0,
    ensures
        steps_back(bs, i) == 1 + steps_back(bs, (i - 1) as nat),
{
}

/// On a character start, at or past the row's end, or at column zero,
/// aligning the cursor to a character start changes nothing.
pub proof fn law_aligned_cursor_stays(s: EditorState)
    requires
        s.col() >= row_width(s.line()) || s.col() == 0 || boundaries(s.line()).contains(
            s.col() as nat,
        ),
    ensures
        prevent_split(s) == s,
{
    assert(EditorState { cx: sub_sat(s.cx, 0), graphemes: sub_sat(s.graphemes, 0), ..s } =~= s);
}

/// Aligning the cursor to a character start twice does the same as once,
/// when the cursor's own column (without the offset) reaches back to that
/// start. (When it does not, the column cannot move far enough and a second
/// call lowers the grapheme count again.)
pub proof fn law_align_twice(s: EditorState)
    requires
        steps_back(boundaries(s.line()), s.col() as nat) <= s.cx,
    ensures
        prevent_split(prevent_split(s)) == prevent_split(s),
{
    let s1 = prevent_split(s);
    if row_width(s.line()) > s.col() {
        let bs = boundaries(s.line());
        lemma_steps_back_lands(bs, s.col() as nat);
        assert(s1.line() == s.line());
        assert(s1.col() == s.col() - steps_back(bs, s.col() as nat));
        law_aligned_cursor_stays(s1);
    } else {
        law_aligned_cursor_stays(s1);
    }
}

/// The cells from a character's start column, as many as the character takes,
/// are filled by that character.
pub proof fn lemma_cells_of_char(line: Seq<char>, k: int, j: int)
    requires
        0 <= k < line.len(),
        0 <= j < char_width(line[k]),
    ensures
        start_col(line, k) + j < cells(line).len(),
        cells(line)[start_col(line, k) + j] == line[k],
{
    lemma_width_take_step(line, k);
    lemma_cells_len(line.take(k));
    assert(line =~= line.take(k + 1) + line.skip(k + 1));
    lemma_cells_concat(line.take(k + 1), line.skip(k + 1));
    let pre = cells(line.take(k));
    let rep = Seq::new(char_width(line[k]), |i: int| line[k]);
    assert(cells(line.take(k + 1))[start_col(line, k) + j] == rep[j]);
}

/// Right then Left gives back the cursor's column and the grapheme count,
/// when the cursor is on a character start within its row, every character
/// of the row takes one or two columns, the terminal is at least four columns
/// wide and the grapheme count is below its maximum. (On a terminal three
/// columns wide, Right over a wide character next to the edge scrolls, and
/// Left then moves the cursor instead, past the character's start.)
pub proof fn law_right_then_left(s: EditorState, k: int)
    requires
        s.wf(),
        0 <= k < s.line().len(),
        start_col(s.line(), k) == s.col(),
        forall|j: int| 0 <= j < s.line().len() ==> 1 <= #[trigger] char_width(s.line()[j]) <= 2,
        s.width >= 4,
        s.graphemes < usize::MAX,
    ensures
        left(right(s)).col() == s.col(),
        left(right(s)).graphemes == s.graphemes,
        left(right(s)).index() == s.index(),
        same_but_column(left(right(s)), s),
{
    let line = s.line();
    let w = char_width(line[k]);
    lemma_cells_of_char(line, k, 0);
    lemma_cells_of_char(line, k, w - 1);
    lemma_cells_len(line);
    assert(crate::model::cell_jump(line, s.col()) == w);
    let r = right(s);
    assert(r.line() == line);
    assert(r.col() == s.col() + w);
    assert(crate::model::cell_jump(line, r.col() - 1) == w);
    assert(r.cx != 0);
}

/// Keys that a prompt ignores: anything but a character, backspace or
/// escape.
pub open spec fn ignored_by_prompt(k: Key) -> bool {
    !(k is Char) && !(k is Backspace) && !(k is Esc)
}

/// A prompt as it is shown: the editor waits for a file name and the
/// command line shows the prompt's label and what was typed.
pub open spec fn prompt_shown(s: EditorState) -> bool {
    match s.mode {
        ModeView::Prompt(p, t) => s == prompting(s, p, t),
        _ => false,
    }
}

/// The state after a sequence of key presses.
pub open spec fn after_keys(s: EditorState, ks: Seq<Key>) -> EditorState
    decreases ks.len(),
{
    if ks.len() == 0 {
        s
    } else {
        after_keys(step(s, Event::Key(ks[0])).0, ks.drop_first())
    }
}

/// A key that a shown prompt ignores changes nothing.
pub proof fn law_prompt_ignores_key(s: EditorState, k: Key)
    requires
        !s.quit,
        prompt_shown(s),
        ignored_by_prompt(k),
    ensures
        step(s, Event::Key(k)) == (s, ActionView::Redraw),
{
}

/// Pressing keys one sequence after another is pressing their concatenation.
pub proof fn lemma_after_keys_concat(s: EditorState, a: Seq<Key>, b: Seq<Key>)
    ensures
        after_keys(s, a + b) == after_keys(after_keys(s, a), b),
    decreases a.len(),
{
    if a.len() == 0 {
        assert(a + b =~= b);
    } else {
        assert((a + b).drop_first() =~= a.drop_first() + b);
        assert((a + b)[0] == a[0]);
        lemma_after_keys_concat(step(s, Event::Key(a[0])).0, a.drop_first(), b);
    }
}

proof fn lemma_ignored_keys(s: EditorState, ks: Seq<Key>)
    requires
        !s.quit,
        prompt_shown(s),
        forall|i: int| 0 <= i < ks.len() ==> ignored_by_prompt(#[trigger] ks[i]),
    ensures
        after_keys(s, ks) == s,
    decreases ks.len(),
{
    if ks.len() > 0 {
        law_prompt_ignores_key(s, ks[0]);
        assert forall|i: int| 0 <= i < ks.drop_first().len() implies ignored_by_prompt(
            #[trigger] ks.drop_first()[i],
        ) by {
            assert(ks.drop_first()[i] == ks[i + 1]);
        }
        lemma_ignored_keys(s, ks.drop_first());
    }
}

/// Keys that a prompt ignores, pressed anywhere while the prompt is shown,
/// change nothing that follows: the prompt's result and everything else come
/// out as without them.
pub proof fn law_prompt_ignores_keys(s: EditorState, a: Seq<Key>, extra: Seq<Key>, b: Seq<Key>)
    requires
        !after_keys(s, a).quit,
        prompt_shown(after_keys(s, a)),
        forall|i: int| 0 <= i < extra.len() ==> ignored_by_prompt(#[trigger] extra[i]),
    ensures
        after_keys(s, a + extra + b) == after_keys(s, a + b),
{
    lemma_after_keys_concat(s, a + extra, b);
    lemma_after_keys_concat(s, a, extra);
    lemma_ignored_keys(after_keys(s, a), extra);
    lemma_after_keys_concat(s, a, b);
}

/// Ctrl+W, and Ctrl+O on a document without unsaved changes, show an empty
/// prompt; a key in a shown prompt leaves it shown, or ends it.
pub proof fn law_prompt_stays_shown(s: EditorState, k: Key)
    requires
        !s.quit,
        s.mode is Normal && (k == Key::Ctrl('w') || (k == Key::Ctrl('o') && !s.dirty))
            || prompt_shown(s),
    ensures
        prompt_shown(step(s, Event::Key(k)).0) || step(s, Event::Key(k)).0.mode is Normal,
{
    if prompt_shown(s) {
        let n = EditorState { mode: ModeView::Normal, ..s };
        match s.mode {
            ModeView::Prompt(p, t) => {
                match k {
                    Key::Char(c) => {
                        if c != '\n' {
                            let r = prompting(s, p, t.push(c));
                            assert(r == prompting(r, p, t.push(c)));
                        }
                    },
                    Key::Backspace => {
                        let t2 = if t.len() > 0 { t.drop_last() } else { t };
                        let r = prompting(s, p, t2);
                        assert(r == prompting(r, p, t2));
                    },
                    _ => {},
                }
            },
            _ => {},
        }
    } else {
        let r = prompting(s, if k == Key::Ctrl('w') { Purpose::SaveAs } else { Purpose::Open }, Seq::empty());
        assert(r == prompting(r, if k == Key::Ctrl('w') { Purpose::SaveAs } else { Purpose::Open }, Seq::empty()));
    }
}

/// A new terminal size keeps a shown prompt shown.
pub proof fn law_prompt_shown_after_resize(s: EditorState, w: u16, h: u16)
    requires
        prompt_shown(s),
    ensures
        prompt_shown(resize(s, w, h)),
{
    match s.mode {
        ModeView::Prompt(p, t) => {
            assert(resize(s, w, h) =~= prompting(resize(s, w, h), p, t));
        },
        _ => {},
    }
}

proof fn lemma_step_return(s: EditorState)
    requires
        !s.quit,
        s.mode is Normal,
    ensures
        step(s, Event::Key(Key::Char('\n'))).0 == crate::model::return_key(touched(s)),
{
}

/// One row down, when there is one: the row index grows by one, only the
/// cursor changes.
proof fn lemma_down_index(x: EditorState)
    requires
        x.index() + 1 < x.rows.len(),
        x.rows.len() <= crate::document::MAX_ROWS,
    ensures
        crate::model::down(x).index() == x.index() + 1,
        same_but_cursor(crate::model::down(x), x),
{
    let d = if x.cy == x.bottom() {
        EditorState { oy: crate::model::add_sat(x.oy, 1), ..x }
    } else {
        EditorState { cy: crate::model::add_sat(x.cy, 1), ..x }
    };
    lemma_settle_frame(d);
}

/// One row up from the start of a row that is not the first: the row index
/// drops by one, and the cursor stays at column zero when the row above is
/// not empty.
proof fn lemma_up_from_start(z: EditorState)
    requires
        z.index() >= 1,
        z.cx == 0,
        z.ox == 0,
        z.index() - 1 < z.rows.len(),
        row_width(z.rows[z.index() - 1]) > 0,
    ensures
        crate::model::up(z).index() == z.index() - 1,
        crate::model::up(z).cx == 0,
        crate::model::up(z).ox == 0,
        same_but_cursor(crate::model::up(z), z),
{
    let d = if z.cy == 0 {
        EditorState { oy: sub_sat(z.oy, 1), ..z }
    } else {
        EditorState { cy: sub_sat(z.cy, 1), ..z }
    };
    lemma_settle_frame(d);
    assert(snap(d) == d);
    let bs = boundaries(d.line());
    assert(steps_back(bs, 0) == 0);
    assert(prevent_split(d).cx == 0);
}

proof fn lemma_split_rows(rows: Seq<Seq<char>>, i: int, line: Seq<char>, g: int)
    requires
        0 <= i < rows.len(),
        rows[i] == line,
        0 <= g <= line.len(),
    ensures
        rows.insert(i + 1, line.skip(g)).update(i, line.take(g)).update(
            i,
            line.take(g) + line.skip(g),
        ).remove(i + 1) == rows,
{
    assert(line.take(g) + line.skip(g) =~= line);
    assert(rows.insert(i + 1, line.skip(g)).update(i, line.take(g)).update(
        i,
        line.take(g) + line.skip(g),
    ).remove(i + 1) =~= rows);
}

/// Backspace undoes a row split by return: when return is pressed in the
/// middle of a row, on a character start that the grapheme count matches,
/// backspace then joins the two rows again and puts the cursor back on the
/// same row and column.
pub proof fn law_backspace_undoes_split(s: EditorState)
    requires
        s.wf(),
        !s.quit,
        s.mode is Normal,
        s.rows.len() < crate::document::MAX_ROWS,
        0 < s.col() < row_width(s.line()),
        s.graphemes <= s.line().len(),
        start_col(s.line(), s.graphemes as int) == s.col(),
    ensures
        ({
            let s2 = step(step(s, Event::Key(Key::Char('\n'))).0, Event::Key(Key::Backspace)).0;
            &&& s2.rows == s.rows
            &&& s2.index() == s.index()
            &&& s2.col() == s.col()
        }),
{
    let t = touched(s);
    let i = s.index();
    let line = s.line();
    let g = s.graphemes as int;
    lemma_step_return(s);
    let x = EditorState { rows: t.rows.insert(i + 1, line.skip(g)).update(i, line.take(g)), ..t };
    assert(crate::model::return_key(t) == crate::model::home(crate::model::down(x)));
    lemma_down_index(x);
    let s1 = crate::model::home(crate::model::down(x));
    assert(s1.index() == i + 1);
    assert(s1.rows == x.rows);
    lemma_step_backspace(s1);
    let t2 = touched(s1);
    let prev = t2.rows[i];
    let cur = t2.rows[i + 1];
    assert(prev == line.take(g));
    assert(cur == line.skip(g));
    let merged = EditorState { rows: t2.rows.update(i, prev + cur).remove(i + 1), ..t2 };
    lemma_split_rows(s.rows, i, line, g);
    assert(merged.rows == s.rows);
    lemma_up_from_start(merged);
    let moved = crate::model::up(merged);
    assert(backspace(s1) == recalc(EditorState { cx: row_width(prev) as usize, ..moved }));
}

/// Up moves the cursor to the row above, from any row but the first: the
/// row index drops by exactly one (when the cursor is on the top line of the
/// screen, by scrolling the view up one row). On the first row it stays.
/// Only the cursor and the view move.
pub proof fn law_up_moves_one_row(s: EditorState)
    requires
        s.wf(),
        !s.quit,
        s.mode is Normal,
    ensures
        step(s, Event::Key(Key::Up)).0.index() == (if s.index() >= 1 {
            s.index() - 1
        } else {
            0
        }),
        s.cy == 0 && s.oy >= 1 ==> step(s, Event::Key(Key::Up)).0.oy == s.oy - 1,
        same_but_cursor(step(s, Event::Key(Key::Up)).0, s),
{
    let d = if s.cy == 0 {
        EditorState { oy: sub_sat(s.oy, 1), ..s }
    } else {
        EditorState { cy: sub_sat(s.cy, 1), ..s }
    };
    lemma_settle_frame(d);
}

/// Down moves the cursor to the row below whenever there is one: the row
/// index grows by exactly one. On the last row it stays.
pub proof fn law_down_moves_one_row(s: EditorState)
    requires
        s.wf(),
        !s.quit,
        s.mode is Normal,
    ensures
        step(s, Event::Key(Key::Down)).0.index() == (if s.index() + 1 < s.rows.len() {
            s.index() + 1
        } else {
            s.index()
        }),
        same_but_cursor(step(s, Event::Key(Key::Down)).0, s),
{
    assert(step(s, Event::Key(Key::Down)).0 == crate::model::down(s));
    if s.index() + 1 < s.rows.len() {
        lemma_down_index(s);
    }
}

/// The width of the character in cell `i` of a row; one past the row's
/// cells.
pub open spec fn width_of_cell(line: Seq<char>, i: int) -> nat {
    if 0 <= i < cells(line).len() {
        char_width(cells(line)[i])
    } else {
        1
    }
}

/// Left moves the cursor's column (column on screen plus horizontal offset)
/// back by the width of the character in the cell before it, whether the
/// cursor is at the screen's left edge (and the view scrolls) or not; the
/// grapheme count drops by one with it (it stays at zero). This holds when
/// the character fits before the column and, off the left edge, the
/// cursor's screen column holds the whole character. Nothing but the cursor
/// and the view moves.
pub proof fn law_left_moves_back_one_character(s: EditorState)
    requires
        !s.quit,
        s.mode is Normal,
        s.col() > 0,
        width_of_cell(s.line(), s.col() - 1) <= s.col(),
        s.cx == 0 || width_of_cell(s.line(), s.col() - 1) <= s.cx,
    ensures
        step(s, Event::Key(Key::Left)).0.col() == s.col() - width_of_cell(s.line(), s.col() - 1),
        step(s, Event::Key(Key::Left)).0.graphemes == (if s.graphemes >= 1 {
            s.graphemes - 1
        } else {
            0
        }),
        step(s, Event::Key(Key::Left)).0.index() == s.index(),
        same_but_column(step(s, Event::Key(Key::Left)).0, s),
{
    assert(step(s, Event::Key(Key::Left)).0 == left(s));
    assert(crate::model::cell_jump(s.line(), s.col() - 1) == width_of_cell(s.line(), s.col() - 1));
}

/// Right moves the cursor's column forward by the width of the character
/// in its cell, when the cursor is within its row (scrolling the view
/// instead of the cursor at the screen's right edge); the grapheme count
/// grows by one with it. Past the row's end nothing moves.
pub proof fn law_right_moves_over_one_character(s: EditorState)
    requires
        !s.quit,
        s.mode is Normal,
        s.cx + width_of_cell(s.line(), s.col()) <= usize::MAX,
        s.ox + width_of_cell(s.line(), s.col()) <= usize::MAX,
        s.graphemes < usize::MAX,
    ensures
        s.col() < row_width(s.line()) ==> step(s, Event::Key(Key::Right)).0.col() == s.col()
            + width_of_cell(s.line(), s.col()),
        s.col() < row_width(s.line()) ==> step(s, Event::Key(Key::Right)).0.graphemes
            == s.graphemes + 1,
        s.col() >= row_width(s.line()) ==> step(s, Event::Key(Key::Right)).0 == s,
        step(s, Event::Key(Key::Right)).0.index() == s.index(),
        same_but_column(step(s, Event::Key(Key::Right)).0, s),
{
    assert(step(s, Event::Key(Key::Right)).0 == right(s));
    assert(crate::model::cell_jump(s.line(), s.col()) == width_of_cell(s.line(), s.col()));
}

/// Home puts the cursor at the start of its row, with the view scrolled
/// fully left and nothing counted before the cursor; the row stays.
pub proof fn law_home_goes_to_row_start(s: EditorState)
    requires
        !s.quit,
        s.mode is Normal,
    ensures
        step(s, Event::Key(Key::Home)).0.cx == 0,
        step(s, Event::Key(Key::Home)).0.ox == 0,
        step(s, Event::Key(Key::Home)).0.graphemes == 0,
        step(s, Event::Key(Key::Home)).0.index() == s.index(),
        same_but_column(step(s, Event::Key(Key::Home)).0, s),
{
}

/// A screen line of the text area that shows no welcome text draws document
/// row `oy + r`, as much of it as fits from column `ox` on, when there is
/// such a row.
pub proof fn law_screen_line_shows_scrolled_row(s: EditorState, r: int)
    requires
        0 <= r < s.height,
        r != s.height - 1,
        r != s.height - 2,
        welcome_at(s, r) is None,
        s.oy + r < s.rows.len(),
    ensures
        frame(s)[r] == with_background(s, visible(s.rows[s.oy + r], s.ox as int, s.ox + s.width)),
{
}

/// The cursor's row is drawn on the cursor's screen line: the line at
/// `cy` shows the row the cursor is on.
pub proof fn law_cursor_row_on_screen(s: EditorState)
    requires
        s.wf(),
        s.cy + 2 < s.height,
        welcome_at(s, s.cy as int) is None,
    ensures
        frame(s)[s.cy as int] == with_background(
            s,
            visible(s.line(), s.ox as int, s.ox + s.width),
        ),
{
    law_screen_line_shows_scrolled_row(s, s.cy as int);
}

/// After a file is opened, the cursor is at the start of the first row, the
/// view is not scrolled, nothing is counted before the cursor, and the rows
/// are the file's lines.
pub proof fn law_open_puts_cursor_at_top(s: EditorState, path: Seq<char>, t: Seq<char>)
    ensures
        opened(s, path, Some(t)).cx == 0,
        opened(s, path, Some(t)).ox == 0,
        opened(s, path, Some(t)).cy == 0,
        opened(s, path, Some(t)).oy == 0,
        opened(s, path, Some(t)).graphemes == 0,
        opened(s, path, Some(t)).index() == 0,
        opened(s, path, Some(t)).rows == crate::document::split_lines(t),
        !opened(s, path, Some(t)).dirty,
{
}

/// End puts the cursor's column just after the row's last cell, which is
/// the row's width: on a row narrower than the terminal the cursor's screen
/// column is that width; on a wider row the view scrolls so the cursor sits
/// on the last screen column and the cursor's column is still that width.
/// The grapheme count becomes the number of characters.
pub proof fn law_end_after_last_cell(s: EditorState)
    requires
        s.wf(),
        s.width >= 1,
        row_width(s.line()) < usize::MAX,
    ensures
        row_width(s.line()) < s.width ==> end(s).cx == cells(s.line()).len(),
        row_width(s.line()) < s.width ==> end(s).cx == row_width(s.line()),
        row_width(s.line()) >= s.width ==> end(s).col() == row_width(s.line()) && end(s).cx
            == s.width - 1,
        end(s).graphemes == s.line().len(),
        end(crate::model::home(s)).col() == row_width(s.line()),
        same_but_column(end(s), s),
{
    lemma_cells_len(s.line());
}

/// The highlighted welcome line is the plain one with the text wrapped in
/// the status colour and a foreground reset; the margins stay the same.
pub proof fn law_colour_only_wraps_text(s: EditorState, t: Seq<char>)
    ensures
        ({
            let before = bg() + "~"@ + spaces(((s.width - t.len()) / 2) as nat);
            let after = spaces(((s.width - t.len()) / 2) as nat) + reset_bg();
            &&& welcome_line(s, t, false) == before + t + after
            &&& welcome_line(s, t, true) == before + status_fg() + t + reset_fg() + after
        }),
{
    let pad = spaces(((s.width - t.len()) / 2) as nat);
    let before = bg() + "~"@ + pad;
    let after = pad + reset_bg();
    assert(welcome_line(s, t, false) =~= before + t + after);
    assert(welcome_line(s, t, true) =~= before + status_fg() + t + reset_fg() + after);
}

/// After a new terminal size the cursor is on the screen's text area.
pub proof fn law_resize_keeps_cursor_on_screen(s: EditorState, w: u16, h: u16)
    ensures
        resize(s, w, h).cy <= sub_sat(h as usize, 3),
        resize(s, w, h).rows == s.rows,
{
}

/// In a prompt, typing a character and then backspace gives back the prompt
/// as it was.
pub proof fn law_prompt_backspace_undoes_typing(s: EditorState, p: Purpose, t: Seq<char>, c: char)
    requires
        !s.quit,
        c != '\n',
    ensures
        ({
            let s0 = prompting(s, p, t);
            let s1 = step(s0, Event::Key(Key::Char(c))).0;
            step(s1, Event::Key(Key::Backspace)).0 == s0
        }),
{
    let s0 = prompting(s, p, t);
    let s1 = step(s0, Event::Key(Key::Char(c))).0;
    assert(s1 == prompting(s0, p, t.push(c)));
    assert(t.push(c).drop_last() =~= t);
    assert(step(s1, Event::Key(Key::Backspace)).0 =~= s0);
}

/// A successful save leaves nothing unsaved and keeps the document; a failed
/// one changes only the message.
pub proof fn law_save_outcome(s: EditorState, path: Seq<char>, ok: bool)
    ensures
        ok ==> !saved(s, ok).dirty && !saved_as(s, path, ok).dirty,
        ok ==> saved_as(s, path, ok).path == path,
        saved(s, ok).rows == s.rows,
        saved_as(s, path, ok).rows == s.rows,
        !ok ==> saved(s, ok).dirty == s.dirty && saved(s, ok).path == s.path,
        !ok ==> saved(s, ok).msg == Type::Error,
{
}

/// What Ctrl+S hands over to be written to the document's path, read back by
/// opening that path, gives the same rows, whatever state opens it.
pub proof fn law_save_then_open(s: EditorState, other: EditorState)
    requires
        s.wf(),
        !s.quit,
        s.mode is Normal,
    ensures
        match step(s, Event::Key(Key::Ctrl('s'))).1 {
            ActionView::Save(p, text) => p == s.path && opened(other, p, Some(text)).rows == s.rows,
            _ => false,
        },
{
    assert forall|i: int| 0 <= i < s.rows.len() implies !(#[trigger] s.rows[i]).contains('\n') by {
    }
    lemma_split_join(s.rows);
}

/// Deleting the character just inserted gives back the row.
pub proof fn law_delete_undoes_insert(s: Seq<char>, c: char, p: int)
    requires
        0 <= p <= s.len(),
    ensures
        deleted(inserted(s, c, p), p) == s,
{
    assert(deleted(inserted(s, c, p), p) =~= s);
}

proof fn lemma_step_char(s: EditorState, c: char)
    requires
        !s.quit,
        s.mode is Normal,
        c != '\n',
        c != '\t',
    ensures
        step(s, Event::Key(Key::Char(c))).0 == right(put_char(touched(s), c)),
{
}

proof fn lemma_step_backspace(s: EditorState)
    requires
        !s.quit,
        s.mode is Normal,
    ensures
        step(s, Event::Key(Key::Backspace)).0 == backspace(s),
{
}

proof fn lemma_typed_state(s: EditorState, c: char)
    requires
        s.wf(),
        char_width(c) >= 1,
        s.graphemes <= s.line().len(),
        s.col() <= row_width(s.line()),
    ensures
        right(put_char(touched(s), c)).col() >= 1,
        right(put_char(touched(s), c)).index() == s.index(),
        right(put_char(touched(s), c)).graphemes == s.graphemes + 1,
        right(put_char(touched(s), c)).rows == s.rows.update(
            s.index(),
            inserted(s.line(), c, s.graphemes as int),
        ),
        right(put_char(touched(s), c)).quit == s.quit,
        right(put_char(touched(s), c)).mode == s.mode,
{
    let g = s.graphemes as int;
    let ins = inserted(s.line(), c, g);
    let p = put_char(touched(s), c);
    lemma_width_inserted(s.line(), c, g);
    lemma_cells_len(ins);
    lemma_cells_positive(ins);
    assert(p.line() == ins);
    assert(p.col() < cells(ins).len());
    assert(crate::model::cell_jump(ins, p.col()) >= 1);
    assert(row_width(p.line()) > p.col());
}

proof fn lemma_deleted_state(s1: EditorState, i: int, g: usize)
    requires
        s1.col() >= 1,
        s1.index() == i,
        s1.graphemes == g + 1,
    ensures
        backspace(s1).rows == s1.rows.update(i, deleted(s1.rows[i], g as int)),
{
    let m = left(touched(s1));
    assert(m.index() == i);
    assert(m.graphemes == g);
}

/// Typing a character that takes a column, then pressing backspace, gives
/// back the document's rows, when the grapheme cursor and the column lie
/// within the row.
pub proof fn law_backspace_undoes_typing(s: EditorState, c: char)
    requires
        s.wf(),
        !s.quit,
        s.mode is Normal,
        c != '\n',
        c != '\t',
        char_width(c) >= 1,
        s.graphemes <= s.line().len(),
        s.col() <= row_width(s.line()),
    ensures
        step(step(s, Event::Key(Key::Char(c))).0, Event::Key(Key::Backspace)).0.rows == s.rows,
{
    let i = s.index();
    let g = s.graphemes;
    lemma_step_char(s, c);
    lemma_typed_state(s, c);
    let s1 = right(put_char(touched(s), c));
    lemma_step_backspace(s1);
    lemma_deleted_state(s1, i, g);
    law_delete_undoes_insert(s.line(), c, g as int);
    assert(s1.rows[i] == inserted(s.line(), c, g as int));
    assert(backspace(s1).rows =~= s.rows);
}

/// The bound on the columns that the visible part of a row takes.
pub open spec fn visible_bound(s: Seq<char>, start: int, end: int) -> int {
    if row_width(s) <= start {
        0
    } else if row_width(s) <= end {
        row_width(s) - start
    } else {
        end - start
    }
}

/// A row drawn in a window of columns never takes more columns than the
/// window has.
pub proof fn law_visible_fits(s: Seq<char>, start: int, end: int)
    requires
        0 <= start <= end,
    ensures
        row_width(visible(s, start, end)) <= visible_bound(s, start, end),
        visible_bound(s, start, end) <= end - start,
    decreases s.len(),
{
    if s.len() > 0 {
        let before = s.drop_last();
        law_visible_fits(before, start, end);
        assert(before.push(s.last()) =~= s);
        lemma_width_concat(before, seq![s.last()]);
        assert(seq![s.last()].drop_last() =~= Seq::<char>::empty());
        assert(row_width(seq![s.last()].drop_last()) == 0);
        assert(seq![s.last()].last() == s.last());
        assert(row_width(seq![s.last()]) == char_width(s.last()));
        assert(row_width(s) == row_width(before) + char_width(s.last()));
        if start <= row_width(before) && row_width(s) <= end {
            lemma_width_concat(visible(before, start, end), seq![s.last()]);
            assert(visible(s, start, end) == visible(before, start, end) + seq![s.last()]);
        } else {
            assert(visible(s, start, end) == visible(before, start, end) + Seq::<char>::empty());
            assert(visible(before, start, end) + Seq::<char>::empty() =~= visible(before, start, end));
        }
    }
}

} // verus!
