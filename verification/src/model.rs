//! The editor as a mathematical state, and what each key and event does to
//! it. The executable editor is proved to follow these definitions.
use vstd::prelude::*;
use crate::row::{row_width, cells, boundaries, inserted, deleted, MAX_ROW_CHARS};
use crate::document::{join_lines, split_lines, rows_ok, MAX_ROWS};
use crate::text::{char_uppercase, titled};
use crate::width::char_width;

verus! {

/// The widest column or offset the cursor takes.
pub const MAX_COL: usize = 0x3fff_ffff;

/// The kind of a command-line message.
#[derive(Clone, Copy, PartialEq, Eq, Structural, Debug)]
pub enum Type {
    Error,
    Warning,
    Info,
}

/// A key press, as the editor distinguishes them.
#[derive(Clone, Copy, PartialEq, Eq, Structural, Debug)]
pub enum Key {
    Char(char),
    Ctrl(char),
    Backspace,
    Left,
    Right,
    Up,
    Down,
    PageUp,
    PageDown,
    Home,
    End,
    Esc,
    Other,
}

/// Something that happens to the editor: a key press, or the terminal
/// taking a new size (columns, lines).
#[derive(Clone, Copy, PartialEq, Eq, Structural, Debug)]
pub enum Event {
    Key(Key),
    Resize(u16, u16),
}

/// What a confirmation about unsaved changes is for.
#[derive(Clone, Copy, PartialEq, Eq, Structural, Debug)]
pub enum Subject {
    Quit,
    New,
    Open,
}

/// What a prompt for a file name is for.
#[derive(Clone, Copy, PartialEq, Eq, Structural, Debug)]
pub enum Purpose {
    Open,
    SaveAs,
}

/// What the editor is waiting for, as a value.
pub enum ModeView {
    Normal,
    Confirm(Subject),
    Prompt(Purpose, Seq<char>),
}

/// What the caller has to do after an event, as a value.
pub enum ActionView {
    Redraw,
    Open(Seq<char>),
    Save(Seq<char>, Seq<char>),
    SaveAs(Seq<char>, Seq<char>),
}

/// The whole state of the editor.
#[verifier::ext_equal]
pub struct EditorState {
    pub quit: bool,
    pub show_welcome: bool,
    pub dirty: bool,
    pub graphemes: usize,
    pub msg: Type,
    pub text: Seq<char>,
    pub width: u16,
    pub height: u16,
    pub cx: usize,
    pub cy: usize,
    pub ox: usize,
    pub oy: usize,
    pub rows: Seq<Seq<char>>,
    pub name: Seq<char>,
    pub path: Seq<char>,
    pub mode: ModeView,
}

/// `a - b`, or zero when `b` is larger.
pub open spec fn sub_sat(a: usize, b: nat) -> usize {
    if a >= b {
        (a - b) as usize
    } else {
        0
    }
}

/// `a + b`, or `usize::MAX` when that is larger.
pub open spec fn add_sat(a: usize, b: nat) -> usize {
    if a + b > usize::MAX {
        usize::MAX
    } else {
        (a + b) as usize
    }
}

impl EditorState {
    /// The row the cursor is on.
    pub open spec fn index(self) -> int {
        self.cy + self.oy
    }

    /// The text of the row the cursor is on.
    pub open spec fn line(self) -> Seq<char> {
        self.rows[self.index()]
    }

    /// The column of the cursor within its row.
    pub open spec fn col(self) -> int {
        self.cx + self.ox
    }

    /// The last screen line that shows text (the two below it show the
    /// status line and the command line).
    pub open spec fn bottom(self) -> usize {
        sub_sat(self.height as usize, 3)
    }

    /// The state's invariant: there is a row, the cursor is on one, rows are
    /// bounded and hold no newline, and the cursor's column and offset are
    /// bounded.
    pub open spec fn wf(self) -> bool {
        &&& 1 <= self.rows.len() <= MAX_ROWS
        &&& self.index() < self.rows.len()
        &&& rows_ok(self.rows)
        &&& self.cx <= MAX_COL
        &&& self.ox <= MAX_COL
    }
}

/// The cursor at the start of its row.
pub open spec fn home(s: EditorState) -> EditorState {
    EditorState { ox: 0, cx: 0, graphemes: 0, ..s }
}

/// The cursor after the end of its row, scrolled so that it shows.
pub open spec fn end(s: EditorState) -> EditorState {
    let l = row_width(s.line());
    let w = s.width as nat;
    let moved = if l >= w {
        EditorState { ox: sub_sat(add_sat(l as usize, 1), w), cx: sub_sat(s.width as usize, 1), ..s }
    } else {
        EditorState { cx: l as usize, ..s }
    };
    EditorState { graphemes: s.line().len() as usize, ..moved }
}

/// The cursor pulled back to the end of its row when it lies past it.
pub open spec fn snap(s: EditorState) -> EditorState {
    if row_width(s.line()) <= s.col() {
        end(home(s))
    } else {
        s
    }
}

/// How many columns the cursor steps back from `i` to reach the start of a
/// character (or column zero).
pub open spec fn steps_back(bs: Seq<nat>, i: nat) -> nat
    decreases i,
{
    if bs.contains(i) || i == 0 {
        0
    } else {
        1 + steps_back(bs, (i - 1) as nat)
    }
}

/// The cursor moved off the middle of a wide character, to its start.
pub open spec fn prevent_split(s: EditorState) -> EditorState {
    if row_width(s.line()) > s.col() {
        let st = steps_back(boundaries(s.line()), s.col() as nat);
        EditorState { cx: sub_sat(s.cx, st), graphemes: sub_sat(s.graphemes, st), ..s }
    } else {
        s
    }
}

/// The grapheme count found by walking the character starts `bs` from the
/// `k`-th on, until one equals `col`.
pub open spec fn recount(bs: Seq<nat>, col: int, k: nat, g: usize) -> usize
    decreases bs.len() - k,
{
    if k >= bs.len() || bs[k as int] == col {
        g
    } else {
        recount(bs, col, k + 1, (k + 1) as usize)
    }
}

/// The grapheme count brought in line with the cursor's column.
pub open spec fn recalc(s: EditorState) -> EditorState {
    EditorState { graphemes: recount(boundaries(s.line()), s.col(), 0, s.graphemes), ..s }
}

/// What follows a move to another row.
pub open spec fn settle(s: EditorState) -> EditorState {
    recalc(prevent_split(snap(s)))
}

/// The cursor one row down (scrolling at the bottom), when there is a row.
pub open spec fn down(s: EditorState) -> EditorState {
    if s.index() + 1 < s.rows.len() {
        settle(
            if s.cy == s.bottom() {
                EditorState { oy: add_sat(s.oy, 1), ..s }
            } else {
                EditorState { cy: add_sat(s.cy, 1), ..s }
            },
        )
    } else {
        s
    }
}

/// The cursor one row up (scrolling at the top).
pub open spec fn up(s: EditorState) -> EditorState {
    settle(
        if s.cy == 0 {
            EditorState { oy: sub_sat(s.oy, 1), ..s }
        } else {
            EditorState { cy: sub_sat(s.cy, 1), ..s }
        },
    )
}

/// The cursor on the top line of the screen.
pub open spec fn page_up(s: EditorState) -> EditorState {
    settle(EditorState { cy: 0, ..s })
}

/// The screen line that page down moves the cursor to.
pub open spec fn page_down_line(s: EditorState) -> usize {
    let last = sub_sat(s.rows.len() as usize, 1);
    if last <= s.bottom() {
        last
    } else {
        s.bottom()
    }
}

/// The cursor on the last line of the screen, or of the document.
pub open spec fn page_down(s: EditorState) -> EditorState {
    settle(EditorState { cy: page_down_line(s), ..s })
}

/// The width of the character in cell `i` of a row, or one past its end.
pub open spec fn cell_jump(line: Seq<char>, i: int) -> nat {
    if 0 <= i < cells(line).len() {
        char_width(cells(line)[i])
    } else {
        1
    }
}

/// The cursor over the next character, scrolling at the right edge.
pub open spec fn right(s: EditorState) -> EditorState {
    let jump = cell_jump(s.line(), s.col());
    if row_width(s.line()) > s.col() {
        let moved = if s.cx == sub_sat(s.width as usize, jump) || s.cx == sub_sat(
            s.width as usize,
            1,
        ) {
            EditorState { ox: add_sat(s.ox, jump), ..s }
        } else {
            EditorState { cx: add_sat(s.cx, jump), ..s }
        };
        EditorState { graphemes: add_sat(s.graphemes, 1), ..moved }
    } else {
        s
    }
}

/// The cursor over the previous character, scrolling at the left edge.
pub open spec fn left(s: EditorState) -> EditorState {
    let back = if s.col() >= 1 {
        s.col() - 1
    } else {
        0
    };
    let jump = cell_jump(s.line(), back);
    let moved = if s.cx == 0 {
        EditorState { ox: sub_sat(s.ox, jump), ..s }
    } else {
        EditorState { cx: sub_sat(s.cx, jump), ..s }
    };
    EditorState { graphemes: sub_sat(s.graphemes, 1), ..moved }
}

/// The cursor moved by a movement key; other keys leave it.
pub open spec fn move_cursor(s: EditorState, k: Key) -> EditorState {
    match k {
        Key::Down => down(s),
        Key::Up => up(s),
        Key::Right => right(s),
        Key::Left => left(s),
        Key::PageUp => page_up(s),
        Key::PageDown => page_down(s),
        Key::Home => home(s),
        Key::End => end(s),
        _ => s,
    }
}

/// The document marked as edited, and the welcome message gone.
pub open spec fn touched(s: EditorState) -> EditorState {
    EditorState { dirty: true, show_welcome: false, ..s }
}

/// `c` inserted into the cursor's row at the grapheme cursor.
pub open spec fn put_char(s: EditorState, c: char) -> EditorState {
    EditorState {
        rows: s.rows.update(s.index(), inserted(s.line(), c, s.graphemes as int)),
        ..s
    }
}

/// `c` typed: inserted, then the cursor moved over it.
pub open spec fn type_char(s: EditorState, c: char) -> EditorState {
    right(put_char(s, c))
}

/// `n` spaces typed.
pub open spec fn type_spaces(s: EditorState, n: nat) -> EditorState
    decreases n,
{
    if n == 0 {
        s
    } else {
        type_spaces(type_char(s, ' '), (n - 1) as nat)
    }
}

/// The row split at the cursor (or a new row opened) by the return key.
pub open spec fn return_key(s: EditorState) -> EditorState {
    let i = s.index();
    let line = s.line();
    if s.col() == 0 {
        down(EditorState { rows: s.rows.insert(i, Seq::empty()), ..s })
    } else if s.col() == row_width(line) {
        recalc(home(down(EditorState { rows: s.rows.insert(i + 1, Seq::empty()), ..s })))
    } else {
        let g = s.graphemes as int;
        home(
            down(
                EditorState {
                    rows: s.rows.insert(i + 1, line.skip(g)).update(i, line.take(g)),
                    ..s
                },
            ),
        )
    }
}

/// A character key pressed: return splits the row, tab types four spaces,
/// anything else is typed.
pub open spec fn character(s: EditorState, c: char) -> EditorState {
    let t = touched(s);
    if c == '\n' {
        return_key(t)
    } else if c == '\t' {
        type_spaces(t, 4)
    } else {
        type_char(t, c)
    }
}

/// Backspace: at the start of a row it joins the row to the one above;
/// elsewhere it deletes the character before the cursor.
pub open spec fn backspace(s: EditorState) -> EditorState {
    let t = touched(s);
    if t.col() == 0 && t.index() != 0 {
        let i = t.index();
        let prev = t.rows[i - 1];
        let cur = t.rows[i];
        let merged = EditorState { rows: t.rows.update(i - 1, prev + cur).remove(i), ..t };
        let moved = up(merged);
        recalc(EditorState { cx: row_width(prev) as usize, ..moved })
    } else {
        let m = left(t);
        EditorState { rows: m.rows.update(m.index(), deleted(m.line(), m.graphemes as int)), ..m }
    }
}

/// The key that confirms a subject without a further question.
pub open spec fn subject_key(sub: Subject) -> char {
    match sub {
        Subject::Quit => 'q',
        Subject::New => 'n',
        Subject::Open => 'o',
    }
}

/// The word for a subject.
pub open spec fn subject_word(sub: Subject) -> Seq<char> {
    match sub {
        Subject::Quit => "quit"@,
        Subject::New => "new"@,
        Subject::Open => "open"@,
    }
}

/// The warning shown before discarding unsaved changes.
pub open spec fn confirm_text(sub: Subject) -> Seq<char> {
    "Unsaved Changes! Ctrl + "@ + char_uppercase(subject_key(sub)) + " to force "@ + subject_word(
        sub,
    )
}

/// The message shown when a subject is cancelled.
pub open spec fn cancel_text(sub: Subject) -> Seq<char> {
    titled(subject_word(sub)) + " cancelled"@
}

/// The label of a prompt.
pub open spec fn label(p: Purpose) -> Seq<char> {
    match p {
        Purpose::Open => "Open"@,
        Purpose::SaveAs => "Save as"@,
    }
}

/// A command-line message.
pub open spec fn say(s: EditorState, msg: Type, text: Seq<char>) -> EditorState {
    EditorState { msg, text, ..s }
}

/// A new, empty document in place of the current one.
pub open spec fn new_document(s: EditorState) -> EditorState {
    home(
        EditorState {
            rows: seq![Seq::<char>::empty()],
            name: "[No name]"@,
            path: Seq::empty(),
            dirty: false,
            cy: 0,
            oy: 0,
            ..s
        },
    )
}

/// A prompt holding `t` so far.
pub open spec fn prompting(s: EditorState, p: Purpose, t: Seq<char>) -> EditorState {
    EditorState { mode: ModeView::Prompt(p, t), msg: Type::Info, text: label(p) + ": "@ + t, ..s }
}

/// What a confirmed subject does.
pub open spec fn proceed(s: EditorState, sub: Subject) -> EditorState {
    match sub {
        Subject::Quit => EditorState { quit: true, ..s },
        Subject::New => new_document(s),
        Subject::Open => prompting(s, Purpose::Open, Seq::empty()),
    }
}

/// A subject that discards the document: done at once when nothing is
/// unsaved, asked about otherwise.
pub open spec fn ask(s: EditorState, sub: Subject) -> EditorState {
    if !s.dirty {
        proceed(s, sub)
    } else {
        EditorState { mode: ModeView::Confirm(sub), ..say(s, Type::Warning, confirm_text(sub)) }
    }
}

/// A key in normal mode.
pub open spec fn normal_key(s: EditorState, k: Key) -> (EditorState, ActionView) {
    match k {
        Key::Char(c) => (character(s, c), ActionView::Redraw),
        Key::Backspace => (backspace(s), ActionView::Redraw),
        Key::Ctrl(c) => if c == 'q' {
            (ask(s, Subject::Quit), ActionView::Redraw)
        } else if c == 'n' {
            (ask(s, Subject::New), ActionView::Redraw)
        } else if c == 'o' {
            (ask(s, Subject::Open), ActionView::Redraw)
        } else if c == 's' {
            (s, ActionView::Save(s.path, join_lines(s.rows)))
        } else if c == 'w' {
            (prompting(s, Purpose::SaveAs, Seq::empty()), ActionView::Redraw)
        } else {
            (s, ActionView::Redraw)
        },
        Key::Esc | Key::Other => (s, ActionView::Redraw),
        _ => (move_cursor(s, k), ActionView::Redraw),
    }
}

/// A key while a confirmation is asked: return or the subject's own control
/// key goes ahead, any other key cancels.
pub open spec fn confirm_key(s: EditorState, sub: Subject, k: Key) -> EditorState {
    let n = EditorState { mode: ModeView::Normal, ..s };
    if k == Key::Char('\n') || k == Key::Ctrl(subject_key(sub)) {
        proceed(n, sub)
    } else {
        say(n, Type::Info, cancel_text(sub))
    }
}

/// A key while a file name is prompted for.
pub open spec fn prompt_key(s: EditorState, p: Purpose, t: Seq<char>, k: Key) -> (
    EditorState,
    ActionView,
) {
    let n = EditorState { mode: ModeView::Normal, ..s };
    match k {
        Key::Char(c) => if c == '\n' {
            (
                n,
                match p {
                    Purpose::Open => ActionView::Open(t),
                    Purpose::SaveAs => ActionView::SaveAs(t, join_lines(s.rows)),
                },
            )
        } else {
            (prompting(s, p, t.push(c)), ActionView::Redraw)
        },
        Key::Backspace => (
            prompting(
                s,
                p,
                if t.len() > 0 {
                    t.drop_last()
                } else {
                    t
                },
            ),
            ActionView::Redraw,
        ),
        Key::Esc => (
            match p {
                Purpose::Open => n,
                Purpose::SaveAs => say(n, Type::Info, "Save as cancelled"@),
            },
            ActionView::Redraw,
        ),
        _ => (prompting(s, p, t), ActionView::Redraw),
    }
}

/// The terminal's new size, with the cursor kept on the screen.
pub open spec fn resize(s: EditorState, w: u16, h: u16) -> EditorState {
    let bottom = sub_sat(h as usize, 3);
    EditorState { width: w, height: h, cy: if s.cy > bottom { bottom } else { s.cy }, ..s }
}

/// A file read for opening: on success its lines replace the document, named
/// by its path, with the cursor at the top; on failure the command line says
/// so.
pub open spec fn opened(s: EditorState, path: Seq<char>, text: Option<Seq<char>>) -> EditorState {
    match text {
        Some(t) => home(
            EditorState {
                rows: split_lines(t),
                name: path,
                path: path,
                dirty: false,
                cy: 0,
                oy: 0,
                ..s
            },
        ),
        None => say(s, Type::Error, "File couldn't be opened"@),
    }
}

/// The message after writing a file.
pub open spec fn save_message(ok: bool, path: Seq<char>) -> Seq<char> {
    if ok {
        "File saved to "@ + path + " successfully"@
    } else {
        "Failed to save file to "@ + path
    }
}

/// The document written to its path: on success it is no longer edited.
pub open spec fn saved(s: EditorState, ok: bool) -> EditorState {
    if ok {
        say(EditorState { dirty: false, ..s }, Type::Info, save_message(true, s.path))
    } else {
        say(s, Type::Error, save_message(false, s.path))
    }
}

/// The document written to a new path: on success it takes that path as its
/// name and path and is no longer edited.
pub open spec fn saved_as(s: EditorState, path: Seq<char>, ok: bool) -> EditorState {
    if ok {
        say(
            EditorState { dirty: false, name: path, path: path, ..s },
            Type::Info,
            save_message(true, path),
        )
    } else {
        say(s, Type::Error, save_message(false, path))
    }
}

/// The editor when it starts: with the file named on the command line (its
/// text when it could be read, an empty document by that name otherwise),
/// or an empty document and the welcome message.
pub open spec fn initial(path: Option<Seq<char>>, text: Option<Seq<char>>, w: u16, h: u16) -> EditorState {
    EditorState {
        quit: false,
        show_welcome: path is None,
        dirty: false,
        graphemes: 0,
        msg: Type::Info,
        text: "Welcome to Ox!"@,
        width: w,
        height: h,
        cx: 0,
        cy: 0,
        ox: 0,
        oy: 0,
        rows: match (path, text) {
            (Some(_), Some(t)) => split_lines(t),
            _ => seq![Seq::<char>::empty()],
        },
        name: match path {
            Some(p) => p,
            None => "[No name]"@,
        },
        path: match path {
            Some(p) => p,
            None => Seq::empty(),
        },
        mode: ModeView::Normal,
    }
}

/// What an event does, and what the caller has to do next.
pub open spec fn step(s: EditorState, e: Event) -> (EditorState, ActionView) {
    if s.quit {
        (s, ActionView::Redraw)
    } else {
        match e {
            Event::Resize(w, h) => (resize(s, w, h), ActionView::Redraw),
            Event::Key(k) => match s.mode {
                ModeView::Normal => normal_key(s, k),
                ModeView::Confirm(sub) => (confirm_key(s, sub, k), ActionView::Redraw),
                ModeView::Prompt(p, t) => prompt_key(s, p, t, k),
            },
        }
    }
}

/// An event on which the editor runs without fault: the rows it grows stay
/// within bounds, a row split at the cursor has that many graphemes, and
/// page down lands on a row.
pub open spec fn accepts(s: EditorState, e: Event) -> bool {
    match e {
        Event::Key(k) => !s.quit && s.mode is Normal ==> match k {
            Key::Char(c) => if c == '\n' {
                &&& s.rows.len() < MAX_ROWS
                &&& (s.col() != 0 && s.col() != row_width(s.line())) ==> s.graphemes
                    <= s.line().len()
            } else if c == '\t' {
                s.line().len() + 4 <= MAX_ROW_CHARS
            } else {
                s.line().len() + 1 <= MAX_ROW_CHARS
            },
            Key::Backspace => (s.col() == 0 && s.index() != 0) ==> s.rows[s.index() - 1].len()
                + s.line().len() <= MAX_ROW_CHARS,
            Key::PageDown => page_down_line(s) + s.oy < s.rows.len(),
            _ => true,
        },
        Event::Resize(_, _) => true,
    }
}

} // verus!
