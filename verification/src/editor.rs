//! The editor: its document, cursor, scroll offset, command line and mode,
//! and how it answers each event.
use vstd::prelude::*;

pub mod screen;
use crate::row::{
    Row, row_width, boundaries, inserted, deleted, lemma_cells_len, lemma_edit_no_newline,
    lemma_no_newline_subrange, lemma_no_newline_concat, MAX_ROW_CHARS,
};
use crate::document::{
    Document, rows_ok, text_fits, lemma_fitting_rows, lemma_rows_ok_edit, MAX_ROWS,
};
use crate::terminal::Terminal;
use crate::text::{chars_of, append, append_str, copy_of, uppercase, title};
use crate::width::grapheme_width;
use crate::model::{
    EditorState, ModeView, ActionView, Type, Key, Event, Subject, Purpose, sub_sat,
    home, end, snap, steps_back, prevent_split, recount, recalc, settle, down, up,
    page_down_line, cell_jump, right, left, move_cursor, touched, put_char,
    type_char, type_spaces, return_key, character, backspace, subject_key, subject_word,
    label, say, new_document, prompting, proceed, ask, normal_key,
    confirm_key, prompt_key, resize, step, accepts, opened, saved, saved_as, initial,
};


verus! {

/// The number of spaces a tab inserts.
const TAB_WIDTH: usize = 4;

/// A position on the screen or in the document.
pub struct Position {
    pub x: usize,
    pub y: usize,
}

/// The message on the command line.
pub struct CommandLine {
    pub msg: Type,
    pub text: Vec<char>,
}

/// What the editor is waiting for.
pub enum Mode {
    Normal,
    Confirm(Subject),
    Prompt(Purpose, Vec<char>),
}

impl View for Mode {
    type V = ModeView;

    open spec fn view(&self) -> ModeView {
        match self {
            Mode::Normal => ModeView::Normal,
            Mode::Confirm(s) => ModeView::Confirm(*s),
            Mode::Prompt(p, t) => ModeView::Prompt(*p, t@),
        }
    }
}

/// What the caller has to do after an event: redraw, read the file at a
/// path, or write a text to a path.
pub enum Action {
    Redraw,
    Open(Vec<char>),
    Save(Vec<char>, Vec<char>),
    SaveAs(Vec<char>, Vec<char>),
}

impl View for Action {
    type V = ActionView;

    open spec fn view(&self) -> ActionView {
        match self {
            Action::Redraw => ActionView::Redraw,
            Action::Open(p) => ActionView::Open(p@),
            Action::Save(p, t) => ActionView::Save(p@, t@),
            Action::SaveAs(p, t) => ActionView::SaveAs(p@, t@),
        }
    }
}

/// The editor.
pub struct Editor {
    quit: bool,
    show_welcome: bool,
    dirty: bool,
    graphemes: usize,
    command_line: CommandLine,
    term: Terminal,
    cursor: Position,
    doc: Document,
    offset: Position,
    mode: Mode,
}

impl View for Editor {
    type V = EditorState;

    closed spec fn view(&self) -> EditorState {
        EditorState {
            quit: self.quit,
            show_welcome: self.show_welcome,
            dirty: self.dirty,
            graphemes: self.graphemes,
            msg: self.command_line.msg,
            text: self.command_line.text@,
            width: self.term.width,
            height: self.term.height,
            cx: self.cursor.x,
            cy: self.cursor.y,
            ox: self.offset.x,
            oy: self.offset.y,
            rows: self.doc.lines(),
            name: self.doc.name@,
            path: self.doc.path@,
            mode: self.mode@,
        }
    }
}

impl Editor {
    /// The row the cursor is on.
    fn line(&self) -> (r: &Row)
        requires
            self@.wf(),
        ensures
            r@ == self@.line(),
            r@.len() <= MAX_ROW_CHARS,
    {
        let r = &self.doc.rows[self.cursor.y + self.offset.y];
        assert(r@ == self@.rows[self@.index()]);
        r
    }

    /// Moves the cursor to the start of its row.
    fn home(&mut self)
        requires
            old(self)@.wf(),
        ensures
            final(self)@ == home(old(self)@),
            final(self)@.wf(),
    {
        self.offset.x = 0;
        self.cursor.x = 0;
        self.graphemes = 0;
        assert(self@ =~= home(old(self)@));
    }

    /// Moves the cursor after the end of its row.
    fn end(&mut self)
        requires
            old(self)@.wf(),
        ensures
            final(self)@ == end(old(self)@),
            final(self)@.wf(),
    {
        let line = &self.doc.rows[self.cursor.y + self.offset.y];
        assert(line@ == old(self)@.line());
        let l = line.length();
        if l >= self.term.width as usize {
            proof {
                lemma_cells_len(line@);
            }
            let mut jump: usize = 1;
            if let Some(chr) = line.ext_char(l) {
                jump = grapheme_width(chr);
            }
            assert(jump == 1);
            self.offset.x = l.saturating_add(jump).saturating_sub(self.term.width as usize);
            self.cursor.x = self.term.width.saturating_sub(jump as u16) as usize;
        } else {
            self.cursor.x = l;
        }
        self.graphemes = line.char_count();
        assert(self@ =~= end(old(self)@));
    }

    /// Pulls the cursor back to the end of its row when it lies past it.
    fn snap_cursor(&mut self)
        requires
            old(self)@.wf(),
        ensures
            final(self)@ == snap(old(self)@),
            final(self)@.wf(),
    {
        let l = self.line().length();
        if l <= self.cursor.x + self.offset.x {
            self.home();
            self.end();
        }
    }

    /// Moves the cursor off the middle of a wide character, to its start.
    fn prevent_unicode_hell(&mut self)
        requires
            old(self)@.wf(),
        ensures
            final(self)@ == prevent_split(old(self)@),
            final(self)@.wf(),
    {
        let l = self.line().length();
        if l > self.cursor.x + self.offset.x {
            let starts = self.line().boundaries();
            let ghost bs = boundaries(old(self)@.line());
            let ghost col0 = old(self)@.col() as nat;
            assert forall|x: usize| starts@.contains(x) == bs.contains(x as nat) by {
                if starts@.contains(x) {
                    let k = choose|k: int| 0 <= k < starts@.len() && starts@[k] == x;
                    assert(bs[k] == x);
                }
                if bs.contains(x as nat) {
                    let k = choose|k: int| 0 <= k < bs.len() && bs[k] == x as nat;
                    assert(starts@[k] == x);
                }
            }
            let mut index = self.cursor.x + self.offset.x;
            let ghost mut done: nat = 0;
            while !contains(&starts, index) && index != 0
                invariant
                    forall|x: usize| starts@.contains(x) == bs.contains(x as nat),
                    index + done == col0,
                    self.cursor.x == sub_sat(old(self)@.cx, done),
                    self.graphemes == sub_sat(old(self)@.graphemes, done),
                    steps_back(bs, col0) == done + steps_back(bs, index as nat),
                    self@ == (EditorState {
                        cx: self.cursor.x,
                        graphemes: self.graphemes,
                        ..old(self)@
                    }),
                decreases index,
            {
                proof {
                    lemma_steps_back_step(bs, index as nat);
                    lemma_sub_sat_step(old(self)@.cx, done);
                    lemma_sub_sat_step(old(self)@.graphemes, done);
                }
                self.cursor.x = self.cursor.x.saturating_sub(1);
                self.graphemes = self.graphemes.saturating_sub(1);
                index = index.saturating_sub(1);
                proof {
                    done = done + 1;
                }
            }
            assert(self@ =~= prevent_split(old(self)@));
        }
    }

    /// Moves the cursor over the next character, scrolling at the right edge.
    fn move_right(&mut self)
        requires
            old(self)@.wf(),
        ensures
            final(self)@ == right(old(self)@),
            final(self)@.wf(),
    {
        let line = self.line();
        let pos = self.cursor.x + self.offset.x;
        let mut jump: usize = 1;
        if let Some(chr) = line.ext_char(pos) {
            jump = grapheme_width(chr);
        }
        let l = line.length();
        assert(jump == cell_jump(old(self)@.line(), old(self)@.col()));
        if l > pos {
            let indicator1 = self.cursor.x == self.term.width.saturating_sub(jump as u16) as usize;
            let indicator2 = self.cursor.x == self.term.width.saturating_sub(1) as usize;
            if indicator1 || indicator2 {
                self.offset.x = self.offset.x.saturating_add(jump);
            } else {
                self.cursor.x = self.cursor.x.saturating_add(jump);
            }
            self.graphemes = self.graphemes.saturating_add(1);
        }
        assert(self@ =~= right(old(self)@));
    }

    /// Moves the cursor over the previous character, scrolling at the left
    /// edge.
    fn move_left(&mut self)
        requires
            old(self)@.wf(),
        ensures
            final(self)@ == left(old(self)@),
            final(self)@.wf(),
    {
        let line = self.line();
        let pos = (self.cursor.x + self.offset.x).saturating_sub(1);
        let mut jump: usize = 1;
        if let Some(chr) = line.ext_char(pos) {
            jump = grapheme_width(chr);
        }
        assert(jump == cell_jump(old(self)@.line(), pos as int));
        if self.cursor.x == 0 {
            self.offset.x = self.offset.x.saturating_sub(jump);
        } else {
            self.cursor.x = self.cursor.x.saturating_sub(jump);
        }
        self.graphemes = self.graphemes.saturating_sub(1);
        assert(self@ =~= left(old(self)@));
    }

    /// Snaps, aligns and recounts after the cursor moved to another row.
    fn settle(&mut self)
        requires
            old(self)@.wf(),
        ensures
            final(self)@ == settle(old(self)@),
            final(self)@.wf(),
    {
        self.snap_cursor();
        self.prevent_unicode_hell();
        self.recalculate_graphemes();
    }

    /// Moves the cursor as a movement key asks.
    fn move_cursor(&mut self, direction: Key)
        requires
            old(self)@.wf(),
            direction == Key::PageDown ==> page_down_line(old(self)@) + old(self)@.oy < old(
                self,
            )@.rows.len(),
        ensures
            final(self)@ == move_cursor(old(self)@, direction),
            final(self)@.wf(),
    {
        match direction {
            Key::Down => {
                if self.cursor.y + self.offset.y + 1 < self.doc.rows.len() {
                    if self.cursor.y == self.term.height.saturating_sub(3) as usize {
                        self.offset.y = self.offset.y.saturating_add(1);
                    } else {
                        self.cursor.y = self.cursor.y.saturating_add(1);
                    }
                    self.settle();
                }
            },
            Key::Up => {
                if self.cursor.y == 0 {
                    self.offset.y = self.offset.y.saturating_sub(1);
                } else {
                    self.cursor.y = self.cursor.y.saturating_sub(1);
                }
                self.settle();
            },
            Key::Right => self.move_right(),
            Key::Left => self.move_left(),
            Key::PageUp => {
                self.cursor.y = 0;
                self.settle();
            },
            Key::PageDown => {
                let last = self.doc.rows.len().saturating_sub(1);
                let bottom = self.term.height.saturating_sub(3) as usize;
                self.cursor.y = if last <= bottom {
                    last
                } else {
                    bottom
                };
                self.settle();
            },
            Key::Home => self.home(),
            Key::End => self.end(),
            _ => {},
        }
    }

    /// Inserts `c` into the cursor's row at the grapheme cursor.
    fn put_char(&mut self, c: char)
        requires
            old(self)@.wf(),
            c != '\n',
            old(self)@.line().len() + 1 <= MAX_ROW_CHARS,
        ensures
            final(self)@ == put_char(old(self)@, c),
            final(self)@.wf(),
    {
        let i = self.cursor.y + self.offset.y;
        let g = self.graphemes;
        proof {
            lemma_edit_no_newline(old(self)@.line(), c, g as int);
            lemma_rows_ok_edit(old(self)@.rows, i as int, inserted(old(self)@.line(), c, g as int));
        }
        self.doc.rows[i].insert(c, g);
        assert(self.doc.lines() =~= old(self)@.rows.update(
            i as int,
            inserted(old(self)@.line(), c, g as int),
        ));
        assert(self@ =~= put_char(old(self)@, c));
    }

    /// Types `c`: inserts it and moves the cursor over it.
    fn type_char(&mut self, c: char)
        requires
            old(self)@.wf(),
            c != '\n',
            old(self)@.line().len() + 1 <= MAX_ROW_CHARS,
        ensures
            final(self)@ == type_char(old(self)@, c),
            final(self)@.wf(),
            final(self)@.index() == old(self)@.index(),
            final(self)@.line().len() == old(self)@.line().len() + 1,
    {
        self.put_char(c);
        self.move_right();
    }

    /// Handles a character key: return splits the row, tab types spaces,
    /// anything else is typed.
    fn character(&mut self, c: char)
        requires
            old(self)@.wf(),
            c == '\n' ==> old(self)@.rows.len() < MAX_ROWS,
            c == '\n' && old(self)@.col() != 0 && old(self)@.col() != row_width(old(self)@.line())
                ==> old(self)@.graphemes <= old(self)@.line().len(),
            c == '\t' ==> old(self)@.line().len() + 4 <= MAX_ROW_CHARS,
            c != '\n' && c != '\t' ==> old(self)@.line().len() + 1 <= MAX_ROW_CHARS,
        ensures
            final(self)@ == character(old(self)@, c),
            final(self)@.wf(),
    {
        self.dirty = true;
        self.show_welcome = false;
        assert(self@ =~= touched(old(self)@));
        match c {
            '\n' => self.return_key(),
            '\t' => {
                let ghost t = self@;
                let mut k: usize = 0;
                while k < TAB_WIDTH
                    invariant
                        k <= TAB_WIDTH,
                        self@.wf(),
                        self@.index() == t.index(),
                        self@.line().len() + (TAB_WIDTH - k) <= MAX_ROW_CHARS,
                        type_spaces(self@, (TAB_WIDTH - k) as nat) == type_spaces(t, 4),
                    decreases TAB_WIDTH - k,
                {
                    self.type_char(' ');
                    k += 1;
                }
            },
            _ => self.type_char(c),
        }
    }

    /// Handles the return key: opens a row above or below, or splits the row
    /// at the cursor.
    #[verifier::rlimit(40)]
    fn return_key(&mut self)
        requires
            old(self)@.wf(),
            old(self)@.rows.len() < MAX_ROWS,
            old(self)@.col() != 0 && old(self)@.col() != row_width(old(self)@.line())
                ==> old(self)@.graphemes <= old(self)@.line().len(),
        ensures
            final(self)@ == return_key(old(self)@),
            final(self)@.wf(),
    {
        let i = self.cursor.y + self.offset.y;
        let ghost s = old(self)@;
        proof {
            assert(!Seq::<char>::empty().contains('\n'));
        }
        if self.cursor.x + self.offset.x == 0 {
            proof {
                lemma_rows_ok_edit(s.rows, i as int, Seq::empty());
            }
            self.doc.insert_row(i, Row::empty());
            assert(self@ =~= EditorState { rows: s.rows.insert(i as int, Seq::empty()), ..s });
            self.move_cursor(Key::Down);
        } else if self.cursor.x + self.offset.x == self.line().length() {
            proof {
                lemma_rows_ok_edit(s.rows, i + 1, Seq::empty());
            }
            self.doc.insert_row(i + 1, Row::empty());
            assert(self@ =~= EditorState { rows: s.rows.insert(i + 1, Seq::empty()), ..s });
            self.move_cursor(Key::Down);
            self.move_cursor(Key::Home);
            self.recalculate_graphemes();
        } else {
            let g = self.graphemes;
            let (before, after) = self.line().split(g);
            let ghost line = s.line();
            proof {
                lemma_no_newline_subrange(line, 0, g as int);
                lemma_no_newline_subrange(line, g as int, line.len() as int);
                lemma_rows_ok_edit(s.rows, i + 1, line.skip(g as int));
                lemma_rows_ok_edit(
                    s.rows.insert(i + 1, line.skip(g as int)),
                    i as int,
                    line.take(g as int),
                );
            }
            self.doc.insert_row(i + 1, after);
            self.doc.set_row(i, before);
            assert(self@ =~= EditorState {
                rows: s.rows.insert(i + 1, line.skip(g as int)).update(
                    i as int,
                    line.take(g as int),
                ),
                ..s
            });
            self.move_cursor(Key::Down);
            self.move_cursor(Key::Home);
        }
    }

    /// Handles backspace: joins the row to the one above at the start of a
    /// row, deletes the character before the cursor elsewhere.
    #[verifier::rlimit(40)]
    fn backspace(&mut self)
        requires
            old(self)@.wf(),
            old(self)@.col() == 0 && old(self)@.index() != 0 ==> old(self)@.rows[old(self)@.index()
                - 1].len() + old(self)@.line().len() <= MAX_ROW_CHARS,
        ensures
            final(self)@ == backspace(old(self)@),
            final(self)@.wf(),
    {
        self.dirty = true;
        self.show_welcome = false;
        let ghost t = self@;
        assert(t =~= touched(old(self)@));
        if self.cursor.x + self.offset.x == 0 && self.cursor.y + self.offset.y != 0 {
            let i = self.cursor.y + self.offset.y;
            let prev_len = self.doc.rows[i - 1].length();
            let merged = self.doc.rows[i - 1].joined(&self.doc.rows[i]);
            let ghost prev = t.rows[i - 1];
            let ghost cur = t.rows[i as int];
            proof {
                lemma_no_newline_concat(prev, cur);
                lemma_rows_ok_edit(t.rows, i - 1, prev + cur);
                lemma_rows_ok_edit(t.rows.update(i - 1, prev + cur), i as int, prev + cur);
            }
            self.doc.set_row(i - 1, merged);
            self.doc.remove_row(i);
            let ghost merged_state = EditorState {
                rows: t.rows.update(i - 1, prev + cur).remove(i as int),
                ..t
            };
            assert(self@ =~= merged_state);
            if self.cursor.y == 0 {
                self.offset.y = self.offset.y.saturating_sub(1);
            } else {
                self.cursor.y = self.cursor.y.saturating_sub(1);
            }
            self.settle();
            assert(self@ == up(merged_state));
            self.cursor.x = prev_len;
            self.recalculate_graphemes();
        } else {
            self.move_cursor(Key::Left);
            let i = self.cursor.y + self.offset.y;
            let g = self.graphemes;
            let ghost m = self@;
            proof {
                lemma_edit_no_newline(m.line(), ' ', g as int);
                lemma_rows_ok_edit(m.rows, i as int, deleted(m.line(), g as int));
            }
            self.doc.rows[i].delete(g);
            assert(self.doc.lines() =~= m.rows.update(i as int, deleted(m.line(), g as int)));
            assert(self@ =~= backspace(old(self)@));
        }
    }

    /// Puts a message on the command line.
    fn say(&mut self, msg: Type, text: Vec<char>)
        ensures
            final(self)@ == say(old(self)@, msg, text@),
    {
        self.command_line = CommandLine { msg, text };
        assert(self@ =~= say(old(self)@, msg, text@));
    }

    /// Replaces the document with a new, empty one.
    fn new_document(&mut self)
        requires
            old(self)@.wf(),
        ensures
            final(self)@ == new_document(old(self)@),
            final(self)@.wf(),
    {
        self.doc = Document::new();
        self.dirty = false;
        self.cursor.y = 0;
        self.offset.y = 0;
        proof {
            assert(rows_ok(self@.rows)) by {
                assert(self@.rows[0] == Seq::<char>::empty());
                assert(!Seq::<char>::empty().contains('\n'));
            }
        }
        self.move_cursor(Key::Home);
        assert(self@ =~= new_document(old(self)@));
    }

    /// Shows a prompt holding `t` so far.
    fn show_prompt(&mut self, p: Purpose, t: Vec<char>)
        ensures
            final(self)@ == prompting(old(self)@, p, t@),
    {
        let mut text = chars_of(label_of(p));
        append_str(&mut text, ": ");
        append(&mut text, &t);
        self.command_line = CommandLine { msg: Type::Info, text };
        self.mode = Mode::Prompt(p, t);
        assert(self@ =~= prompting(old(self)@, p, t@));
    }

    /// Goes ahead with a confirmed subject.
    fn proceed(&mut self, sub: Subject)
        requires
            old(self)@.wf(),
        ensures
            final(self)@ == proceed(old(self)@, sub),
            final(self)@.wf(),
    {
        match sub {
            Subject::Quit => {
                self.quit = true;
                assert(self@ =~= proceed(old(self)@, sub));
            },
            Subject::New => self.new_document(),
            Subject::Open => self.show_prompt(Purpose::Open, Vec::new()),
        }
    }

    /// Asks before discarding unsaved changes; returns whether to go ahead
    /// at once, as nothing is unsaved.
    fn dirty_prompt(&mut self, sub: Subject) -> (go: bool)
        requires
            old(self)@.wf(),
        ensures
            go == !old(self)@.dirty,
            go ==> final(self)@ == old(self)@,
            !go ==> final(self)@ == ask(old(self)@, sub),
            final(self)@.wf(),
    {
        if self.dirty {
            let mut text = chars_of("Unsaved Changes! Ctrl + ");
            let upper = uppercase(subject_key_of(sub));
            append(&mut text, &upper);
            append_str(&mut text, " to force ");
            append_str(&mut text, subject_word_of(sub));
            self.say(Type::Warning, text);
            self.mode = Mode::Confirm(sub);
            assert(self@ =~= ask(old(self)@, sub));
            false
        } else {
            true
        }
    }

    /// Handles a quit request.
    fn quit(&mut self)
        requires
            old(self)@.wf(),
        ensures
            final(self)@ == ask(old(self)@, Subject::Quit),
            final(self)@.wf(),
    {
        if self.dirty_prompt(Subject::Quit) {
            self.quit = true;
            assert(self@ =~= ask(old(self)@, Subject::Quit));
        }
    }

    /// Handles the key that answers a confirmation.
    fn confirm(&mut self, sub: Subject, key: Key)
        requires
            old(self)@.wf(),
            old(self)@.mode is Normal,
        ensures
            final(self)@ == confirm_key(old(self)@, sub, key),
            final(self)@.wf(),
    {
        assert(old(self)@ =~= EditorState { mode: ModeView::Normal, ..old(self)@ });
        if key == Key::Char('\n') || key == Key::Ctrl(subject_key_of(sub)) {
            self.proceed(sub);
        } else {
            let word = chars_of(subject_word_of(sub));
            let mut text = title(&word);
            append_str(&mut text, " cancelled");
            self.say(Type::Info, text);
        }
    }

    /// Handles a key while a file name is prompted for.
    fn prompt_key(&mut self, p: Purpose, t: Vec<char>, key: Key) -> (action: Action)
        requires
            old(self)@.wf(),
            old(self)@.mode is Normal,
        ensures
            (final(self)@, action@) == prompt_key(old(self)@, p, t@, key),
            final(self)@.wf(),
    {
        let ghost s = old(self)@;
        assert(s =~= EditorState { mode: ModeView::Normal, ..s });
        let mut t = t;
        match key {
            Key::Char(c) => {
                if c == '\n' {
                    match p {
                        Purpose::Open => Action::Open(t),
                        Purpose::SaveAs => Action::SaveAs(t, self.doc.contents()),
                    }
                } else {
                    t.push(c);
                    self.show_prompt(p, t);
                    Action::Redraw
                }
            },
            Key::Backspace => {
                t.pop();
                self.show_prompt(p, t);
                Action::Redraw
            },
            Key::Esc => {
                match p {
                    Purpose::Open => {},
                    Purpose::SaveAs => self.say(Type::Info, chars_of("Save as cancelled")),
                }
                Action::Redraw
            },
            _ => {
                self.show_prompt(p, t);
                Action::Redraw
            },
        }
    }

    /// Handles a key in normal mode.
    fn process_input(&mut self, key: Key) -> (action: Action)
        requires
            old(self)@.wf(),
            old(self)@.mode is Normal,
            accepts(old(self)@, Event::Key(key)),
            !old(self)@.quit,
        ensures
            (final(self)@, action@) == normal_key(old(self)@, key),
            final(self)@.wf(),
    {
        match key {
            Key::Char(c) => {
                self.character(c);
                Action::Redraw
            },
            Key::Backspace => {
                self.backspace();
                Action::Redraw
            },
            Key::Ctrl(c) => {
                if c == 'q' {
                    self.quit();
                } else if c == 'n' {
                    if self.dirty_prompt(Subject::New) {
                        self.new_document();
                    }
                } else if c == 'o' {
                    if self.dirty_prompt(Subject::Open) {
                        self.show_prompt(Purpose::Open, Vec::new());
                    }
                } else if c == 's' {
                    return Action::Save(copy_of(&self.doc.path), self.doc.contents());
                } else if c == 'w' {
                    self.show_prompt(Purpose::SaveAs, Vec::new());
                }
                Action::Redraw
            },
            Key::Esc | Key::Other => Action::Redraw,
            _ => {
                self.move_cursor(key);
                Action::Redraw
            },
        }
    }

    /// Takes the terminal's new size and keeps the cursor on the screen.
    fn resize(&mut self, width: u16, height: u16)
        requires
            old(self)@.wf(),
        ensures
            final(self)@ == resize(old(self)@, width, height),
            final(self)@.wf(),
    {
        self.term = Terminal::new(width, height);
        let bottom = self.term.height.saturating_sub(3) as usize;
        if self.cursor.y > bottom {
            self.cursor.y = bottom;
        }
        assert(self@ =~= resize(old(self)@, width, height));
    }

    /// Starts the editor on a terminal of the given size: with the file named
    /// by `path` (its text, when it could be read, is `text`), or with an empty
    /// document and the welcome message when no file is named.
    pub fn new(path: Option<Vec<char>>, text: Option<Vec<char>>, width: u16, height: u16) -> (e: Editor)
        requires
            text matches Some(t) ==> text_fits(t@),
        ensures
            e@ == initial(
                match path {
                    Some(p) => Some(p@),
                    None => None,
                },
                match text {
                    Some(t) => Some(t@),
                    None => None,
                },
                width,
                height,
            ),
            e@.wf(),
    {
        let show_welcome = path.is_none();
        let doc = match path {
            Some(p) => match text {
                Some(t) => {
                    proof {
                        lemma_fitting_rows(t@);
                    }
                    Document::from_text(&p, &t)
                },
                None => {
                    let mut d = Document::new();
                    d.name = copy_of(&p);
                    d.path = p;
                    d
                },
            },
            None => Document::new(),
        };
        let e = Editor {
            quit: false,
            show_welcome,
            dirty: false,
            command_line: CommandLine { text: chars_of("Welcome to Ox!"), msg: Type::Info },
            term: Terminal::new(width, height),
            graphemes: 0,
            cursor: Position { x: 0, y: 0 },
            offset: Position { x: 0, y: 0 },
            doc,
            mode: Mode::Normal,
        };
        proof {
            assert(rows_ok(seq![Seq::<char>::empty()])) by {
                assert(!Seq::<char>::empty().contains('\n'));
            }
        }
        assert(e@ =~= initial(
            match path {
                Some(p) => Some(p@),
                None => None,
            },
            match text {
                Some(t) => Some(t@),
                None => None,
            },
            width,
            height,
        ));
        e
    }

    /// Answers one event: a key press or a new terminal size. Returns what
    /// the caller has to do next. Once the editor has quit, events change
    /// nothing.
    pub fn run(&mut self, event: Event) -> (action: Action)
        requires
            old(self)@.wf(),
            accepts(old(self)@, event),
        ensures
            (final(self)@, action@) == step(old(self)@, event),
            final(self)@.wf(),
    {
        if self.quit {
            return Action::Redraw;
        }
        match event {
            Event::Resize(w, h) => {
                self.resize(w, h);
                Action::Redraw
            },
            Event::Key(key) => {
                let mut mode = Mode::Normal;
                std::mem::swap(&mut mode, &mut self.mode);
                match mode {
                    Mode::Normal => self.process_input(key),
                    Mode::Confirm(sub) => {
                        self.confirm(sub, key);
                        Action::Redraw
                    },
                    Mode::Prompt(p, t) => self.prompt_key(p, t, key),
                }
            },
        }
    }

    /// Answers an event when the editor can do so without fault (see
    /// `accepts`); otherwise leaves the editor as it was and returns nothing.
    pub fn try_run(&mut self, event: Event) -> (r: Option<Action>)
        requires
            old(self)@.wf(),
        ensures
            accepts(old(self)@, event) ==> (r matches Some(a) && (final(self)@, a@) == step(
                old(self)@,
                event,
            )),
            !accepts(old(self)@, event) ==> r is None && final(self)@ == old(self)@,
            final(self)@.wf(),
    {
        if self.accepts(event) {
            Some(self.run(event))
        } else {
            None
        }
    }

    /// Takes the result of reading the file at `path` for opening: its text,
    /// or nothing when it could not be read.
    pub fn open_document(&mut self, path: &Vec<char>, text: Option<Vec<char>>)
        requires
            old(self)@.wf(),
            text matches Some(t) ==> text_fits(t@),
        ensures
            final(self)@ == opened(
                old(self)@,
                path@,
                match text {
                    Some(t) => Some(t@),
                    None => None,
                },
            ),
            final(self)@.wf(),
    {
        match text {
            Some(t) => {
                proof {
                    lemma_fitting_rows(t@);
                }
                self.doc = Document::from_text(path, &t);
                self.dirty = false;
                self.cursor.y = 0;
                self.offset.y = 0;
                self.move_cursor(Key::Home);
            },
            None => self.say(Type::Error, chars_of("File couldn't be opened")),
        }
    }

    /// Takes the result of writing the document to its path.
    pub fn save(&mut self, ok: bool)
        requires
            old(self)@.wf(),
        ensures
            final(self)@ == saved(old(self)@, ok),
            final(self)@.wf(),
    {
        if ok {
            self.dirty = false;
            let mut text = chars_of("File saved to ");
            append(&mut text, &self.doc.path);
            append_str(&mut text, " successfully");
            self.say(Type::Info, text);
        } else {
            let mut text = chars_of("Failed to save file to ");
            append(&mut text, &self.doc.path);
            self.say(Type::Error, text);
        }
    }

    /// Takes the result of writing the document to the new path `path`.
    pub fn save_as(&mut self, path: &Vec<char>, ok: bool)
        requires
            old(self)@.wf(),
        ensures
            final(self)@ == saved_as(old(self)@, path@, ok),
            final(self)@.wf(),
    {
        if ok {
            self.dirty = false;
            let mut text = chars_of("File saved to ");
            append(&mut text, path);
            append_str(&mut text, " successfully");
            self.say(Type::Info, text);
            self.doc.name = copy_of(path);
            self.doc.path = copy_of(path);
            assert(self@ =~= saved_as(old(self)@, path@, ok));
        } else {
            let mut text = chars_of("Failed to save file to ");
            append(&mut text, path);
            self.say(Type::Error, text);
        }
    }

    /// Whether the editor has quit.
    pub fn has_quit(&self) -> (q: bool)
        ensures
            q == self@.quit,
    {
        self.quit
    }

    /// The cursor's place on the screen.
    pub fn cursor(&self) -> (p: Position)
        ensures
            p.x == self@.cx,
            p.y == self@.cy,
    {
        Position { x: self.cursor.x, y: self.cursor.y }
    }

    /// How far the view is scrolled right and down.
    pub fn offset(&self) -> (p: Position)
        ensures
            p.x == self@.ox,
            p.y == self@.oy,
    {
        Position { x: self.offset.x, y: self.offset.y }
    }

    /// The number of characters before the cursor in its row, as the editor
    /// counts them.
    pub fn graphemes(&self) -> (g: usize)
        ensures
            g == self@.graphemes,
    {
        self.graphemes
    }

    /// Whether the document has changes that are not saved.
    pub fn is_dirty(&self) -> (d: bool)
        ensures
            d == self@.dirty,
    {
        self.dirty
    }

    /// The command line's message and its kind.
    pub fn message(&self) -> (m: (Type, &Vec<char>))
        ensures
            m.0 == self@.msg,
            m.1@ == self@.text,
    {
        (self.command_line.msg, &self.command_line.text)
    }

    /// The document being edited.
    pub fn document(&self) -> (d: &Document)
        ensures
            d.lines() == self@.rows,
            d.name@ == self@.name,
            d.path@ == self@.path,
    {
        &self.doc
    }

    /// What the editor is waiting for.
    pub fn mode(&self) -> (m: &Mode)
        ensures
            m@ == self@.mode,
    {
        &self.mode
    }

    /// Whether the editor answers `event` without fault (see `accepts`).
    pub fn accepts(&self, event: Event) -> (ok: bool)
        requires
            self@.wf(),
        ensures
            ok == accepts(self@, event),
    {
        match event {
            Event::Resize(_, _) => true,
            Event::Key(key) => {
                if self.quit {
                    return true;
                }
                match self.mode {
                    Mode::Normal => {},
                    _ => return true,
                }
                let line = self.line();
                match key {
                    Key::Char(c) => {
                        if c == '\n' {
                            let col = self.cursor.x + self.offset.x;
                            self.doc.rows.len() < MAX_ROWS && (col == 0 || col == line.length()
                                || self.graphemes <= line.char_count())
                        } else if c == '\t' {
                            line.char_count() + 4 <= MAX_ROW_CHARS
                        } else {
                            line.char_count() + 1 <= MAX_ROW_CHARS
                        }
                    },
                    Key::Backspace => {
                        let i = self.cursor.y + self.offset.y;
                        if self.cursor.x + self.offset.x == 0 && i != 0 {
                            assert(self.doc.rows@[i - 1]@ == self@.rows[i - 1]);
                            assert(self@.rows[i - 1].len() <= MAX_ROW_CHARS);
                            self.doc.rows[i - 1].char_count() + line.char_count() <= MAX_ROW_CHARS
                        } else {
                            true
                        }
                    },
                    Key::PageDown => {
                        let last = self.doc.rows.len().saturating_sub(1);
                        let bottom = self.term.height.saturating_sub(3) as usize;
                        let y = if last <= bottom {
                            last
                        } else {
                            bottom
                        };
                        y + self.offset.y < self.doc.rows.len()
                    },
                    _ => true,
                }
            },
        }
    }

    /// Brings the grapheme cursor in line with the cursor's column after a
    /// move to another row.
    fn recalculate_graphemes(&mut self)
        requires
            old(self)@.wf(),
        ensures
            final(self)@ == recalc(old(self)@),
            final(self)@.wf(),
    {
        let col = self.cursor.x + self.offset.x;
        let jumps = self.line().get_jumps();
        let ghost line = old(self)@.line();
        let ghost bs = boundaries(line);
        let mut counter: usize = 0;
        let mut k: usize = 0;
        while k < jumps.len() && counter != col
            invariant
                line == old(self)@.line(),
                bs == boundaries(line),
                jumps@.len() == line.len(),
                line.len() <= MAX_ROW_CHARS,
                forall|j: int| 0 <= j < jumps@.len() ==> jumps@[j] == crate::width::char_width(
                    #[trigger] line[j],
                ),
                forall|j: int| 0 <= j < jumps@.len() ==> #[trigger] jumps@[j] <= 2,
                k <= jumps@.len(),
                counter == row_width(line.take(k as int)),
                counter <= 2 * k,
                col == old(self)@.col(),
                recount(bs, col as int, 0, old(self)@.graphemes) == recount(
                    bs,
                    col as int,
                    k as nat,
                    self.graphemes,
                ),
                self@ == (EditorState { graphemes: self.graphemes, ..old(self)@ }),
            decreases jumps@.len() - k,
        {
            proof {
                crate::row::lemma_width_take_step(line, k as int);
                assert(bs[k as int] == counter);
            }
            self.graphemes = k + 1;
            counter = counter + jumps[k];
            k += 1;
        }
        proof {
            if k < jumps@.len() {
                assert(bs[k as int] == counter);
            }
        }
        assert(self@ =~= recalc(old(self)@));
    }
}

/// The key that confirms a subject.
fn subject_key_of(sub: Subject) -> (c: char)
    ensures
        c == subject_key(sub),
{
    match sub {
        Subject::Quit => 'q',
        Subject::New => 'n',
        Subject::Open => 'o',
    }
}

/// The word for a subject.
fn subject_word_of(sub: Subject) -> (w: &'static str)
    ensures
        w@ == subject_word(sub),
        w@.len() > 0 && (w@[0] as u32) < 128,
{
    match sub {
        Subject::Quit => {
            proof {
                reveal_strlit("quit");
            }
            "quit"
        },
        Subject::New => {
            proof {
                reveal_strlit("new");
            }
            "new"
        },
        Subject::Open => {
            proof {
                reveal_strlit("open");
            }
            "open"
        },
    }
}

/// The label of a prompt.
fn label_of(p: Purpose) -> (l: &'static str)
    ensures
        l@ == label(p),
{
    match p {
        Purpose::Open => "Open",
        Purpose::SaveAs => "Save as",
    }
}

/// Whether a column is among the character starts.
fn contains(v: &Vec<usize>, x: usize) -> (r: bool)
    ensures
        r == v@.contains(x),
{
    let mut i: usize = 0;
    while i < v.len()
        invariant
            i <= v.len(),
            forall|j: int| 0 <= j < i ==> v@[j] != x,
        decreases v.len() - i,
    {
        if v[i] == x {
            assert(v@[i as int] == x);
            return true;
        }
        i += 1;
    }
    false
}

/// Stepping back from `i` counts one for the step and then what is left.
proof fn lemma_steps_back_step(bs: Seq<nat>, i: nat)
    requires
        !bs.contains(i),
        i != 0,
    ensures
        steps_back(bs, i) == 1 + steps_back(bs, (i - 1) as nat),
{
}

/// Saturating subtraction composes.
proof fn lemma_sub_sat_step(a: usize, d: nat)
    ensures
        sub_sat(sub_sat(a, d), 1) == sub_sat(a, d + 1),
{
}

} // verus!
