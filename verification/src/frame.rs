//! What the screen shows for a state: the rows of the document in view, a
//! welcome message on an empty start, the status line and the command line.
use vstd::prelude::*;
use crate::model::{EditorState, Type};
use crate::row::{row_width, visible};
use crate::document::file_type;
use crate::terminal::room;
use crate::text::{spaces, decimal};
use crate::style::{csi, rgb_sequence};

verus! {

/// The editor's version, shown in the welcome message.
pub const VERSION: &'static str = "0.1.0";

/// The background of the text area.
pub open spec fn bg() -> Seq<char> {
    rgb_sequence("48"@, 40, 42, 54)
}

/// The background of the status line.
pub open spec fn status_bg() -> Seq<char> {
    rgb_sequence("48"@, 68, 71, 90)
}

/// The foreground of the status line and of highlighted welcome lines.
pub open spec fn status_fg() -> Seq<char> {
    rgb_sequence("38"@, 80, 250, 123)
}

/// The default background.
pub open spec fn reset_bg() -> Seq<char> {
    csi() + "49m"@
}

/// The default foreground.
pub open spec fn reset_fg() -> Seq<char> {
    csi() + "39m"@
}

/// Bold text.
pub open spec fn bold_seq() -> Seq<char> {
    csi() + "1m"@
}

/// Plain text again.
pub open spec fn plain_seq() -> Seq<char> {
    csi() + "m"@
}

/// A line of the welcome message, centred: the margin on each side is half
/// the width less the text's length (the texts are ASCII, so their length in
/// characters is their length in bytes).
pub open spec fn welcome_line(s: EditorState, text: Seq<char>, colour: bool) -> Seq<char> {
    let pad = spaces(((s.width - text.len()) / 2) as nat);
    if colour {
        bg() + "~"@ + pad + status_fg() + text + reset_fg() + pad + reset_bg()
    } else {
        bg() + "~"@ + pad + text + pad + reset_bg()
    }
}

/// A text on the text area's background, padded to the terminal's width.
pub open spec fn with_background(s: EditorState, text: Seq<char>) -> Seq<char> {
    bg() + text + spaces(room(s.width as nat, row_width(text))) + reset_bg()
}

/// The left part of the status line: name, whether edited, file type.
pub open spec fn status_left(s: EditorState) -> Seq<char> {
    " "@ + s.name + (if s.dirty {
        "[+] \u{fb12} "@
    } else {
        " \u{f723} "@
    }) + " \u{2502} "@ + file_type(s.name) + " \u{f1c9} "@
}

/// The right part of the status line: row of the cursor, number of rows,
/// cursor position on the screen.
pub open spec fn status_right(s: EditorState) -> Seq<char> {
    "\u{fa70} "@ + decimal((s.index() + 1) as nat) + " / "@ + decimal(s.rows.len())
        + " \u{2502} \u{fae6}("@ + decimal(s.cx as nat) + ", "@ + decimal(s.cy as nat) + ") "@
}

/// The status line.
pub open spec fn status_line(s: EditorState) -> Seq<char> {
    let left = status_left(s);
    let right = status_right(s);
    bold_seq() + status_fg() + status_bg() + left + spaces(
        room(s.width as nat, row_width(left) + row_width(right)),
    ) + right + reset_bg() + reset_fg() + plain_seq()
}

/// The command line, in red for an error and yellow for a warning.
pub open spec fn command_line(s: EditorState) -> Seq<char> {
    let line = with_background(s, s.text);
    match s.msg {
        Type::Error => bold_seq() + csi() + "38;5;1m"@ + line + reset_fg() + plain_seq(),
        Type::Warning => bold_seq() + csi() + "38;5;3m"@ + line + reset_fg() + plain_seq(),
        Type::Info => line,
    }
}

/// The welcome line, if any, shown on screen line `row`, with whether it is
/// highlighted.
pub open spec fn welcome_at(s: EditorState, row: int) -> Option<(Seq<char>, bool)> {
    let q = s.height / 4;
    if !s.show_welcome || row == s.height - 1 || row == s.height - 2 {
        None
    } else if row == q {
        Some(("Ox editor  v"@ + VERSION@, false))
    } else if row == q + 1 {
        Some(("A Rust powered editor by Curlpipe"@, false))
    } else if row == q + 3 {
        Some(("Ctrl + Q: Exit   "@, true))
    } else if row == q + 4 {
        Some(("Ctrl + S: Save   "@, true))
    } else if row == q + 5 {
        Some(("Ctrl + W: Save as"@, true))
    } else {
        None
    }
}

/// Screen line `row`.
pub open spec fn frame_line(s: EditorState, row: int) -> Seq<char> {
    if row == s.height - 1 {
        command_line(s)
    } else if row == s.height - 2 {
        status_line(s)
    } else {
        match welcome_at(s, row) {
            Some((t, colour)) => welcome_line(s, t, colour),
            None => if s.oy + row < s.rows.len() {
                with_background(s, visible(s.rows[s.oy + row], s.ox as int, s.ox + s.width))
            } else {
                with_background(s, "~"@)
            },
        }
    }
}

/// The lines of the screen, top to bottom.
pub open spec fn frame(s: EditorState) -> Seq<Seq<char>> {
    Seq::new(s.height as nat, |row: int| frame_line(s, row))
}

/// Whether the screen can be drawn: every welcome line shown fits the
/// terminal's width (the margin around it is the width less its length).
pub open spec fn drawable(s: EditorState) -> bool {
    forall|row: int|
        0 <= row < s.height ==> match #[trigger] welcome_at(s, row) {
            Some((t, _)) => t.len() <= s.width,
            None => true,
        }
}

/// Lines joined by carriage return and newline.
pub open spec fn join_crlf(lines: Seq<Seq<char>>) -> Seq<char>
    decreases lines.len(),
{
    if lines.len() == 0 {
        Seq::empty()
    } else if lines.len() == 1 {
        lines[0]
    } else {
        join_crlf(lines.drop_last()) + "\r\n"@ + lines.last()
    }
}

} // verus!
