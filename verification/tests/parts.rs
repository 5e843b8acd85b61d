use ox::document::Document;
use ox::row::Row;
use ox::style::{bg_reset, bg_rgb, bold, fg_red, fg_reset, fg_rgb, fg_yellow, style_reset};
use ox::terminal::{text_width, Terminal};
use ox::text::{chars_of, decimal_of, string_of, title, uppercase};
use ox::width::grapheme_width;

fn chars(s: &str) -> Vec<char> {
    s.chars().collect()
}

fn text(v: &Vec<char>) -> String {
    v.iter().collect()
}

#[test]
fn widths_of_characters() {
    assert_eq!(grapheme_width('a'), 1);
    assert_eq!(grapheme_width('\u{6f22}'), 2);
    assert_eq!(grapheme_width('\u{301}'), 0);
    assert_eq!(grapheme_width('\x07'), 0);
    assert_eq!(grapheme_width('\0'), 0);
    assert_eq!(grapheme_width('~'), 1);
    assert_eq!(grapheme_width(' '), 1);
    assert_eq!(grapheme_width('\u{85}'), 0);
    assert_eq!(grapheme_width('\u{7f}'), 0);
    assert_eq!(text_width(&chars("a\u{6f22}b")), 4);
}

#[test]
fn row_measures() {
    let r = Row::from(chars("a\u{6f22}b"));
    assert_eq!(r.length(), 4);
    assert_eq!(r.char_count(), 3);
    assert_eq!(r.get_jumps(), vec![1, 2, 1]);
    assert_eq!(r.boundaries(), vec![0, 1, 3]);
    assert_eq!(r.ext_char(0), Some('a'));
    assert_eq!(r.ext_char(1), Some('\u{6f22}'));
    assert_eq!(r.ext_char(2), Some('\u{6f22}'));
    assert_eq!(r.ext_char(3), Some('b'));
    assert_eq!(r.ext_char(4), None);
}

#[test]
fn row_edits() {
    let mut r = Row::from(chars("abc"));
    r.insert('X', 1);
    assert_eq!(text(&r.chars), "aXbc");
    r.insert('Y', 10);
    assert_eq!(text(&r.chars), "aXbcY");
    r.delete(0);
    assert_eq!(text(&r.chars), "XbcY");
    r.delete(9);
    assert_eq!(text(&r.chars), "XbcY");
    let (a, b) = r.split(2);
    assert_eq!(text(&a.chars), "Xb");
    assert_eq!(text(&b.chars), "cY");
    assert_eq!(text(&a.joined(&b).chars), "XbcY");
    assert_eq!(text(&r.duplicate().chars), "XbcY");
    assert_eq!(Row::empty().char_count(), 0);
}

#[test]
fn row_render_window() {
    let r = Row::from(chars("ab\u{6f22}cd"));
    assert_eq!(text(&r.render(0, 3)), "ab");
    assert_eq!(text(&r.render(1, 3)), "b\u{6f22}");
    assert_eq!(text(&r.render(3, 10)), "cd");
    assert_eq!(text(&r.render(0, 100)), "ab\u{6f22}cd");
}

#[test]
fn document_lines_and_contents() {
    let d = Document::from_text(&chars("a.rs"), &chars("x\n\ny\n"));
    let rows: Vec<String> = d.rows.iter().map(|r| text(&r.chars)).collect();
    assert_eq!(rows, vec!["x".to_string(), String::new(), "y".to_string(), String::new()]);
    assert_eq!(text(&d.contents()), "x\n\ny\n");
    assert_eq!(text(&d.identify()), "Rust");
    let e = Document::from_text(&chars("b"), &chars(""));
    assert_eq!(e.rows.len(), 1);
    assert_eq!(text(&e.identify()), "Unknown");
    let n = Document::new();
    assert_eq!(text(&n.name), "[No name]");
    assert_eq!(text(&n.contents()), "");
}

#[test]
fn document_types() {
    for (name, kind) in [("x.py", "Python"), ("README.md", "Markdown"), ("Cargo.toml", "TOML"),
                         ("a.b.txt", "Text"), ("x.c", "Unknown"), ("noext", "Unknown"), ("dot.", "Unknown")] {
        let d = Document::from_text(&chars(name), &chars(""));
        assert_eq!(text(&d.identify()), kind);
    }
}

#[test]
fn document_row_changes() {
    let mut d = Document::new();
    d.insert_row(1, Row::from(chars("b")));
    d.set_row(0, Row::from(chars("a")));
    d.insert_row(0, Row::from(chars("z")));
    assert_eq!(text(&d.contents()), "z\na\nb");
    d.remove_row(0);
    assert_eq!(text(&d.contents()), "a\nb");
}

#[test]
fn padding_to_the_width() {
    let t = Terminal::new(10, 5);
    assert_eq!(text(&t.align_left(&chars("abc"))), "       ");
    assert_eq!(text(&t.align_left(&chars("abcdefghijkl"))), "");
    assert_eq!(text(&t.align_break(&chars("ab"), &chars("\u{6f22}"))), "      ");
    assert_eq!(text(&t.align_break(&chars("abcdef"), &chars("ghijk"))), "");
}

#[test]
fn numbers_and_words() {
    assert_eq!(text(&decimal_of(0)), "0");
    assert_eq!(text(&decimal_of(7)), "7");
    assert_eq!(text(&decimal_of(1204)), "1204");
    assert_eq!(text(&title(&chars("quit"))), "Quit");
    assert_eq!(text(&title(&chars(""))), "");
    assert_eq!(text(&uppercase('q')), "Q");
    assert_eq!(text(&uppercase('\u{df}')), "SS");
    assert_eq!(text(&chars_of("h\u{e9}")), "h\u{e9}");
    assert_eq!(string_of(&chars("ok")), "ok".to_string());
}

#[test]
fn escape_sequences() {
    assert_eq!(text(&bg_rgb(40, 42, 54)), "\x1b[48;2;40;42;54m");
    assert_eq!(text(&fg_rgb(80, 250, 123)), "\x1b[38;2;80;250;123m");
    assert_eq!(text(&bg_reset()), "\x1b[49m");
    assert_eq!(text(&fg_reset()), "\x1b[39m");
    assert_eq!(text(&fg_red()), "\x1b[38;5;1m");
    assert_eq!(text(&fg_yellow()), "\x1b[38;5;3m");
    assert_eq!(text(&bold()), "\x1b[1m");
    assert_eq!(text(&style_reset()), "\x1b[m");
}
