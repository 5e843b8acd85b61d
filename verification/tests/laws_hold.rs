use ox::document::Document;
use ox::editor::{Action, Editor, Mode};
use ox::model::{Event, Key, Type};
use ox::row::Row;

fn chars(s: &str) -> Vec<char> {
    s.chars().collect()
}

fn text(v: &Vec<char>) -> String {
    v.iter().collect()
}

fn rows(e: &Editor) -> Vec<String> {
    e.document().rows.iter().map(|r| text(&r.chars)).collect()
}

#[test]
fn quit_is_final() {
    let mut e = Editor::new(None, None, 80, 24);
    e.run(Event::Key(Key::Ctrl('q')));
    assert!(e.has_quit());
    for k in [Key::Char('a'), Key::Backspace, Key::Ctrl('s'), Key::Down] {
        assert!(matches!(e.run(Event::Key(k)), Action::Redraw));
    }
    assert_eq!(rows(&e), vec![String::new()]);
}

#[test]
fn unsaved_changes_ask_first() {
    for c in ['q', 'n', 'o'] {
        let mut e = Editor::new(Some(chars("a")), Some(chars("text")), 80, 24);
        e.run(Event::Key(Key::Char('!')));
        e.run(Event::Key(Key::Ctrl(c)));
        assert!(!e.has_quit());
        assert!(matches!(e.mode(), Mode::Confirm(_)));
        assert_eq!(e.message().0, Type::Warning);
        assert_eq!(rows(&e), vec!["!text".to_string()]);
    }
}

#[test]
fn backspace_undoes_typing() {
    let mut e = Editor::new(Some(chars("a")), Some(chars("ab\u{6f22}c\nxy")), 80, 24);
    e.run(Event::Key(Key::Right));
    e.run(Event::Key(Key::Right));
    let before = rows(&e);
    for c in ['z', '\u{6f22}', ' '] {
        e.run(Event::Key(Key::Char(c)));
        e.run(Event::Key(Key::Backspace));
        assert_eq!(rows(&e), before);
    }
}

#[test]
fn save_then_open_gives_same_rows() {
    let mut e = Editor::new(Some(chars("s.txt")), Some(chars("one\n\ntwo \n")), 80, 24);
    e.run(Event::Key(Key::Char('\n')));
    e.run(Event::Key(Key::Char('\t')));
    let before = rows(&e);
    match e.run(Event::Key(Key::Ctrl('s'))) {
        Action::Save(p, t) => {
            let mut other = Editor::new(None, None, 80, 24);
            other.open_document(&p, Some(t));
            assert_eq!(rows(&other), before);
        }
        _ => panic!("expected a save"),
    }
}

#[test]
fn open_then_save_gives_same_text() {
    let t = "a\r\nb\n\n";
    let d = Document::from_text(&chars("f"), &chars(t));
    assert_eq!(text(&d.contents()), t);
}

#[test]
fn moves_keep_text() {
    let mut e = Editor::new(Some(chars("m")), Some(chars("abc\nde\n\u{6f22}\u{6f22}")), 10, 6);
    let before = rows(&e);
    for k in [Key::Down, Key::Right, Key::End, Key::Down, Key::Left, Key::Up, Key::PageDown,
              Key::Home, Key::PageUp] {
        e.run(Event::Key(k));
    }
    assert_eq!(rows(&e), before);
    assert!(!e.is_dirty());
}

#[test]
fn resizing_never_leaves_cursor_below_text() {
    let mut e = Editor::new(Some(chars("m")), Some(chars("1\n2\n3\n4\n5\n6\n7")), 10, 30);
    for _ in 0..6 {
        e.run(Event::Key(Key::Down));
    }
    for h in [9u16, 4, 2, 0] {
        e.run(Event::Resize(10, h));
        assert!(e.cursor().y <= (h as usize).saturating_sub(3));
    }
}

#[test]
fn prompt_backspace_undoes_typing() {
    let mut e = Editor::new(None, None, 80, 24);
    e.run(Event::Key(Key::Ctrl('w')));
    e.run(Event::Key(Key::Char('a')));
    let before = text(e.message().1);
    e.run(Event::Key(Key::Char('b')));
    e.run(Event::Key(Key::Backspace));
    assert_eq!(text(e.message().1), before);
}

#[test]
fn save_outcomes() {
    let mut e = Editor::new(Some(chars("p")), Some(chars("x")), 80, 24);
    e.run(Event::Key(Key::Char('y')));
    e.save_as(&chars("q"), true);
    assert!(!e.is_dirty());
    assert_eq!(text(&e.document().path), "q");
    e.run(Event::Key(Key::Char('y')));
    e.save(false);
    assert!(e.is_dirty());
    assert_eq!(text(&e.document().path), "q");
    assert_eq!(rows(&e), vec!["yyx".to_string()]);
}

#[test]
fn delete_undoes_insert() {
    let mut r = Row::from(chars("hello"));
    for p in 0..=5 {
        r.insert('#', p);
        r.delete(p);
        assert_eq!(text(&r.chars), "hello");
    }
}

#[test]
fn rendered_rows_fit_the_window() {
    let r = Row::from(chars("\u{6f22}a\u{6f22}bc\u{6f22}"));
    for start in 0..10 {
        for width in 0..10 {
            let shown = r.render(start, width);
            let cols: usize = shown.iter().map(|c| ox::width::grapheme_width(*c)).sum();
            assert!(cols <= width);
        }
    }
}

#[test]
fn every_event_keeps_the_editor_sound() {
    let mut e = Editor::new(Some(chars("w")), Some(chars("a\u{6f22}\n\u{301}x\n")), 6, 5);
    let keys = [Key::Char('\n'), Key::Down, Key::Char('q'), Key::Backspace, Key::Backspace,
                Key::End, Key::Char('\t'), Key::Up, Key::Left, Key::PageDown, Key::Char('\n'),
                Key::Right, Key::Right, Key::Backspace, Key::Home, Key::PageUp];
    for k in keys {
        let ev = Event::Key(k);
        if e.accepts(ev) {
            e.run(ev);
        }
        assert!(e.can_draw());
        let s = e.update();
        assert_eq!(s.text.split("\r\n").count(), 5);
    }
}

#[test]
fn right_then_left_gives_back_the_column() {
    let mut e = Editor::new(Some(chars("r")), Some(chars("a\u{6f22}b\u{6f22}c")), 4, 6);
    for _ in 0..5 {
        let (x, ox, g) = (e.cursor().x, e.offset().x, e.graphemes());
        e.run(Event::Key(Key::Right));
        e.run(Event::Key(Key::Left));
        assert_eq!(e.cursor().x + e.offset().x, x + ox);
        assert_eq!(e.graphemes(), g);
        e.run(Event::Key(Key::Right));
    }
}

#[test]
fn narrow_terminal_can_leave_cursor_inside_wide_character() {
    let mut e = Editor::new(Some(chars("r")), Some(chars("a\u{6f22}")), 3, 6);
    e.run(Event::Key(Key::Right));
    e.run(Event::Key(Key::Right));
    assert_eq!(e.cursor().x + e.offset().x, 3);
    e.run(Event::Key(Key::Left));
    assert_eq!(e.cursor().x + e.offset().x, 2);
}

#[test]
fn stale_grapheme_count_makes_return_refused() {
    let mut e = Editor::new(Some(chars("z")), Some(chars("\u{301}\u{301}\u{301}\nxy")), 80, 24);
    e.run(Event::Key(Key::End));
    assert_eq!(e.graphemes(), 3);
    e.run(Event::Key(Key::Down));
    e.run(Event::Key(Key::Right));
    assert_eq!(e.graphemes(), 4);
    assert!(!e.accepts(Event::Key(Key::Char('\n'))));
}

#[test]
fn backspace_undoes_split() {
    let mut e = Editor::new(Some(chars("s")), Some(chars("top\nab\u{6f22}cd\nend")), 80, 24);
    e.run(Event::Key(Key::Down));
    e.run(Event::Key(Key::Right));
    e.run(Event::Key(Key::Right));
    let before = rows(&e);
    let (x, y) = (e.cursor().x, e.cursor().y);
    e.run(Event::Key(Key::Char('\n')));
    assert_eq!(rows(&e).len(), 4);
    e.run(Event::Key(Key::Backspace));
    assert_eq!(rows(&e), before);
    assert_eq!((e.cursor().x, e.cursor().y), (x, y));
}

#[test]
fn prompt_ignores_other_keys() {
    let mut e = Editor::new(None, None, 80, 24);
    e.run(Event::Key(Key::Ctrl('o')));
    e.run(Event::Key(Key::Char('a')));
    for k in [Key::Left, Key::Ctrl('x'), Key::Up, Key::Other, Key::PageDown] {
        e.run(Event::Key(k));
    }
    e.run(Event::Key(Key::Char('b')));
    match e.run(Event::Key(Key::Char('\n'))) {
        Action::Open(p) => assert_eq!(text(&p), "ab"),
        _ => panic!("expected an open"),
    }
}

#[test]
fn title_twice_is_title_once() {
    for w in ["quit", "Open", "1st", "", "x"] {
        let once = ox::text::title(&chars(w));
        assert_eq!(once.len(), w.chars().count());
        assert_eq!(ox::text::title(&once), once);
    }
}
