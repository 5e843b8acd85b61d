//! Drawing the editor: each line of the screen as text with its escape
//! sequences, and the cursor's place on it.
use vstd::prelude::*;
use crate::editor::{Editor, Position};
use crate::model::{Type};
use crate::frame::{
    welcome_line, with_background, status_left, status_right, status_line, command_line,
    welcome_at, frame_line, frame, drawable, join_crlf, VERSION,
};
use crate::text::{chars_of, append, append_str, push_spaces, decimal_of, string_of};
use crate::style::{bg_rgb, fg_rgb, bg_reset, fg_reset, fg_red, fg_yellow, bold, style_reset};

verus! {

/// A drawn screen: its text, lines joined by carriage return and newline,
/// and where the cursor goes.
pub struct Screen {
    pub text: String,
    pub cursor: Position,
}

impl Editor {
    /// A line of the welcome message, centred on the screen.
    /// The margin is half the width less the text's length in bytes; the
    /// text is ASCII, so that is its number of characters.
    fn welcome_message(&self, text: &Vec<char>, colour: bool) -> (r: Vec<char>)
        requires
            text@.len() <= self@.width,
            forall|i: int| 0 <= i < text@.len() ==> (#[trigger] text@[i] as u32) < 128,
        ensures
            r@ == welcome_line(self@, text@, colour),
    {
        let pad = (self.term.width as usize - text.len()) / 2;
        let mut r = bg_rgb(40, 42, 54);
        append_str(&mut r, "~");
        push_spaces(&mut r, pad);
        if colour {
            append(&mut r, &fg_rgb(80, 250, 123));
            append(&mut r, text);
            append(&mut r, &fg_reset());
        } else {
            append(&mut r, text);
        }
        push_spaces(&mut r, pad);
        append(&mut r, &bg_reset());
        r
    }

    /// The status line: file name, whether edited, file type, cursor row,
    /// number of rows and cursor position.
    fn status_line(&self) -> (r: Vec<char>)
        requires
            self@.wf(),
        ensures
            r@ == status_line(self@),
    {
        let mut left = chars_of(" ");
        append(&mut left, &self.doc.name);
        if self.dirty {
            append_str(&mut left, "[+] \u{fb12} ");
        } else {
            append_str(&mut left, " \u{f723} ");
        }
        append_str(&mut left, " \u{2502} ");
        append(&mut left, &self.doc.identify());
        append_str(&mut left, " \u{f1c9} ");
        let mut right = chars_of("\u{fa70} ");
        append(&mut right, &decimal_of(self.cursor.y + self.offset.y + 1));
        append_str(&mut right, " / ");
        append(&mut right, &decimal_of(self.doc.rows.len()));
        append_str(&mut right, " \u{2502} \u{fae6}(");
        append(&mut right, &decimal_of(self.cursor.x));
        append_str(&mut right, ", ");
        append(&mut right, &decimal_of(self.cursor.y));
        append_str(&mut right, ") ");
        assert(left@ =~= status_left(self@));
        assert(right@ =~= status_right(self@));
        let padding = self.term.align_break(&left, &right);
        let mut r = bold();
        append(&mut r, &fg_rgb(80, 250, 123));
        append(&mut r, &bg_rgb(68, 71, 90));
        append(&mut r, &left);
        append(&mut r, &padding);
        append(&mut r, &right);
        append(&mut r, &bg_reset());
        append(&mut r, &fg_reset());
        append(&mut r, &style_reset());
        assert(r@ =~= status_line(self@));
        r
    }

    /// A text on the text area's background, padded to the terminal's width.
    fn add_background(&self, text: &Vec<char>) -> (r: Vec<char>)
        ensures
            r@ == with_background(self@, text@),
    {
        let mut r = bg_rgb(40, 42, 54);
        append(&mut r, text);
        append(&mut r, &self.term.align_left(text));
        append(&mut r, &bg_reset());
        r
    }

    /// The command line, in red for an error and yellow for a warning.
    fn command_line(&self) -> (r: Vec<char>)
        ensures
            r@ == command_line(self@),
    {
        let line = self.add_background(&self.command_line.text);
        match self.command_line.msg {
            Type::Error => {
                let mut r = bold();
                append(&mut r, &fg_red());
                append(&mut r, &line);
                append(&mut r, &fg_reset());
                append(&mut r, &style_reset());
                assert(r@ =~= command_line(self@));
                r
            },
            Type::Warning => {
                let mut r = bold();
                append(&mut r, &fg_yellow());
                append(&mut r, &line);
                append(&mut r, &fg_reset());
                append(&mut r, &style_reset());
                assert(r@ =~= command_line(self@));
                r
            },
            Type::Info => line,
        }
    }

    /// Screen line `row`.
    fn frame_line(&self, row: u16) -> (r: Vec<char>)
        requires
            self@.wf(),
            drawable(self@),
            row < self@.height,
        ensures
            r@ == frame_line(self@, row as int),
    {
        let h = self.term.height;
        let q = h / 4;
        assert(match welcome_at(self@, row as int) {
            Some((t, _)) => t.len() <= self@.width,
            None => true,
        });
        if row == h - 1 {
            self.command_line()
        } else if row == h - 2 {
            self.status_line()
        } else if row == q && self.show_welcome {
            let mut t = chars_of("Ox editor  v");
            append_str(&mut t, VERSION);
            proof {
                reveal_strlit("Ox editor  v");
                reveal_strlit("0.1.0");
                assert(forall|i: int| 0 <= i < t@.len() ==> (#[trigger] t@[i] as u32) < 128);
            }
            self.welcome_message(&t, false)
        } else if row == q.saturating_add(1) && self.show_welcome {
            {
                proof {
                    reveal_strlit("A Rust powered editor by Curlpipe");
                }
                self.welcome_message(&chars_of("A Rust powered editor by Curlpipe"), false)
            }
        } else if row == q.saturating_add(3) && self.show_welcome {
            {
                proof {
                    reveal_strlit("Ctrl + Q: Exit   ");
                }
                self.welcome_message(&chars_of("Ctrl + Q: Exit   "), true)
            }
        } else if row == q.saturating_add(4) && self.show_welcome {
            {
                proof {
                    reveal_strlit("Ctrl + S: Save   ");
                }
                self.welcome_message(&chars_of("Ctrl + S: Save   "), true)
            }
        } else if row == q.saturating_add(5) && self.show_welcome {
            {
                proof {
                    reveal_strlit("Ctrl + W: Save as");
                }
                self.welcome_message(&chars_of("Ctrl + W: Save as"), true)
            }
        } else if self.offset.y + (row as usize) < self.doc.rows.len() {
            let i = self.offset.y + row as usize;
            assert(self.doc.rows@[i as int]@ == self@.rows[i as int]);
            let text = self.doc.rows[i].render(self.offset.x, self.term.width as usize);
            self.add_background(&text)
        } else {
            self.add_background(&chars_of("~"))
        }
    }

    /// Whether the screen can be drawn (see `drawable`).
    pub fn can_draw(&self) -> (ok: bool)
        ensures
            ok == drawable(self@),
    {
        let mut row: u16 = 0;
        while row < self.term.height
            invariant
                forall|r: int|
                    0 <= r < row ==> match #[trigger] welcome_at(self@, r) {
                        Some((t, _)) => t.len() <= self@.width,
                        None => true,
                    },
            decreases self.term.height - row,
        {
            let h = self.term.height;
            let q = h / 4;
            let w = self.term.width as usize;
            proof {
                reveal_strlit("Ox editor  v");
                reveal_strlit("0.1.0");
                reveal_strlit("A Rust powered editor by Curlpipe");
                reveal_strlit("Ctrl + Q: Exit   ");
                reveal_strlit("Ctrl + S: Save   ");
                reveal_strlit("Ctrl + W: Save as");
            }
            let need: usize = if !self.show_welcome || row == h - 1 || row == h - 2 {
                0
            } else if row == q {
                17
            } else if row == q + 1 {
                33
            } else if row == q + 3 || row == q + 4 || row == q + 5 {
                17
            } else {
                0
            };
            if need > w {
                assert(!drawable(self@)) by {
                    assert(welcome_at(self@, row as int) is Some);
                }
                return false;
            }
            row += 1;
        }
        true
    }

    /// The lines of the screen, top to bottom.
    pub fn render(&self) -> (r: Vec<Vec<char>>)
        requires
            self@.wf(),
            drawable(self@),
        ensures
            r@.len() == self@.height,
            forall|i: int| 0 <= i < r@.len() ==> (#[trigger] r@[i])@ == frame_line(self@, i),
    {
        let mut frame: Vec<Vec<char>> = Vec::new();
        let mut row: u16 = 0;
        while row < self.term.height
            invariant
                self@.wf(),
                drawable(self@),
                frame@.len() == row,
                row <= self.term.height,
                self.term.height == self@.height,
                forall|i: int| 0 <= i < row ==> (#[trigger] frame@[i])@ == frame_line(self@, i),
            decreases self.term.height - row,
        {
            frame.push(self.frame_line(row));
            row += 1;
        }
        frame
    }

    /// Draws the screen: its text, and the cursor's place on it.
    pub fn update(&self) -> (s: Screen)
        requires
            self@.wf(),
            drawable(self@),
        ensures
            s.text@ == join_crlf(frame(self@)),
            s.cursor.x == self@.cx,
            s.cursor.y == self@.cy,
    {
        let lines = self.render();
        let mut text: Vec<char> = Vec::new();
        let mut i: usize = 0;
        while i < lines.len()
            invariant
                i <= lines@.len(),
                lines@.len() == self@.height,
                forall|j: int| 0 <= j < lines@.len() ==> (#[trigger] lines@[j])@ == frame_line(self@, j),
                text@ == join_crlf(frame(self@).take(i as int)),
            decreases lines.len() - i,
        {
            proof {
                let f = frame(self@).take(i + 1);
                assert(f.drop_last() =~= frame(self@).take(i as int));
                assert(f.last() == lines@[i as int]@);
            }
            if i > 0 {
                append_str(&mut text, "\r\n");
            } else {
                assert(text@ + lines@[0]@ =~= lines@[0]@);
            }
            append(&mut text, &lines[i]);
            i += 1;
        }
        assert(frame(self@).take(lines.len() as int) =~= frame(self@));
        Screen { text: string_of(&text), cursor: Position { x: self.cursor.x, y: self.cursor.y } }
    }
}

} // verus!
