use ox::editor::{Action, Editor, Mode};
use ox::model::{Event, Key, Subject, Purpose, Type};

fn chars(s: &str) -> Vec<char> {
    s.chars().collect()
}

fn text(v: &Vec<char>) -> String {
    v.iter().collect()
}

fn rows(e: &Editor) -> Vec<String> {
    e.document().rows.iter().map(|r| text(&r.chars)).collect()
}

fn message(e: &Editor) -> (Type, String) {
    let (t, m) = e.message();
    (t, text(m))
}

fn blank() -> Editor {
    Editor::new(None, None, 80, 24)
}

fn key(e: &mut Editor, k: Key) -> Action {
    let ev = Event::Key(k);
    assert!(e.accepts(ev));
    e.run(ev)
}

fn type_str(e: &mut Editor, s: &str) {
    for c in s.chars() {
        key(e, Key::Char(c));
    }
}

#[test]
fn starts_empty_with_welcome() {
    let e = blank();
    assert_eq!(rows(&e), vec![String::new()]);
    assert_eq!(message(&e), (Type::Info, "Welcome to Ox!".to_string()));
    assert_eq!(text(&e.document().name), "[No name]");
    assert_eq!(text(&e.document().path), "");
    assert!(!e.is_dirty());
    assert!(!e.has_quit());
    let screen = e.update();
    assert!(screen.text.contains("Ox editor  v0.1.0"));
    assert!(screen.text.contains("A Rust powered editor by Curlpipe"));
    assert_eq!(screen.text.split("\r\n").count(), 24);
}

#[test]
fn starts_with_named_file() {
    let e = Editor::new(Some(chars("notes.txt")), Some(chars("one\ntwo")), 80, 24);
    assert_eq!(rows(&e), vec!["one".to_string(), "two".to_string()]);
    assert_eq!(text(&e.document().name), "notes.txt");
    let screen = e.update();
    assert!(!screen.text.contains("Curlpipe"));
    assert!(screen.text.contains("one"));
}

#[test]
fn starts_with_missing_file() {
    let e = Editor::new(Some(chars("new.rs")), None, 80, 24);
    assert_eq!(rows(&e), vec![String::new()]);
    assert_eq!(text(&e.document().name), "new.rs");
    assert_eq!(text(&e.document().path), "new.rs");
}

#[test]
fn typing_inserts_and_moves() {
    let mut e = blank();
    type_str(&mut e, "abc");
    assert_eq!(rows(&e), vec!["abc".to_string()]);
    assert_eq!(e.cursor().x, 3);
    assert_eq!(e.graphemes(), 3);
    assert!(e.is_dirty());
    key(&mut e, Key::Left);
    key(&mut e, Key::Char('X'));
    assert_eq!(rows(&e), vec!["abXc".to_string()]);
    assert_eq!(e.cursor().x, 3);
}

#[test]
fn wide_characters_take_two_columns() {
    let mut e = blank();
    type_str(&mut e, "\u{6f22}a");
    assert_eq!(e.cursor().x, 3);
    assert_eq!(e.graphemes(), 2);
    key(&mut e, Key::Left);
    key(&mut e, Key::Left);
    assert_eq!(e.cursor().x, 0);
    assert_eq!(e.graphemes(), 0);
}

#[test]
fn tab_inserts_four_spaces() {
    let mut e = blank();
    key(&mut e, Key::Char('\t'));
    assert_eq!(rows(&e), vec!["    ".to_string()]);
    assert_eq!(e.cursor().x, 4);
}

#[test]
fn return_splits_and_opens_rows() {
    let mut e = blank();
    type_str(&mut e, "hello");
    key(&mut e, Key::Left);
    key(&mut e, Key::Left);
    key(&mut e, Key::Char('\n'));
    assert_eq!(rows(&e), vec!["hel".to_string(), "lo".to_string()]);
    assert_eq!(e.cursor().y, 1);
    assert_eq!(e.cursor().x, 0);
    key(&mut e, Key::End);
    key(&mut e, Key::Char('\n'));
    assert_eq!(rows(&e), vec!["hel".to_string(), "lo".to_string(), String::new()]);
    assert_eq!(e.cursor().y, 2);
    key(&mut e, Key::Up);
    key(&mut e, Key::Home);
    key(&mut e, Key::Char('\n'));
    assert_eq!(rows(&e), vec!["hel".to_string(), String::new(), "lo".to_string(), String::new()]);
    assert_eq!(e.cursor().y, 2);
}

#[test]
fn backspace_joins_and_deletes() {
    let mut e = blank();
    type_str(&mut e, "ab\ncd");
    key(&mut e, Key::Home);
    key(&mut e, Key::Backspace);
    assert_eq!(rows(&e), vec!["abcd".to_string()]);
    assert_eq!(e.cursor().y, 0);
    assert_eq!(e.cursor().x, 2);
    assert_eq!(e.graphemes(), 2);
    key(&mut e, Key::Backspace);
    assert_eq!(rows(&e), vec!["acd".to_string()]);
    assert_eq!(e.cursor().x, 1);
}

#[test]
fn backspace_at_document_start_deletes_under_cursor() {
    let mut e = Editor::new(Some(chars("f")), Some(chars("xyz")), 80, 24);
    key(&mut e, Key::Backspace);
    assert_eq!(rows(&e), vec!["yz".to_string()]);
    assert_eq!(e.cursor().x, 0);
}

#[test]
fn vertical_moves_snap_to_row_end() {
    let mut e = Editor::new(Some(chars("f")), Some(chars("long line\nab\nxyz")), 80, 24);
    key(&mut e, Key::End);
    assert_eq!(e.cursor().x, 9);
    key(&mut e, Key::Down);
    assert_eq!(e.cursor().y, 1);
    assert_eq!(e.cursor().x, 2);
    assert_eq!(e.graphemes(), 2);
    key(&mut e, Key::PageDown);
    assert_eq!(e.cursor().y, 2);
    key(&mut e, Key::PageUp);
    assert_eq!(e.cursor().y, 0);
    assert_eq!(e.cursor().x, 2);
}

#[test]
fn down_scrolls_at_screen_bottom() {
    let mut e = Editor::new(Some(chars("f")), Some(chars("a\nb\nc\nd\ne\nf")), 20, 6);
    for _ in 0..5 {
        key(&mut e, Key::Down);
    }
    assert_eq!(e.cursor().y, 3);
    assert_eq!(e.offset().y, 2);
    key(&mut e, Key::Down);
    assert_eq!(e.offset().y, 2);
}

#[test]
fn right_scrolls_at_screen_edge() {
    let mut e = Editor::new(Some(chars("f")), Some(chars("abcdefghij")), 5, 10);
    for _ in 0..6 {
        key(&mut e, Key::Right);
    }
    assert_eq!(e.cursor().x, 4);
    assert_eq!(e.offset().x, 2);
    key(&mut e, Key::End);
    assert_eq!(e.offset().x, 6);
    assert_eq!(e.cursor().x, 4);
    assert_eq!(e.graphemes(), 10);
}

#[test]
fn page_down_past_rows_is_refused() {
    let mut e = Editor::new(Some(chars("f")), Some(chars("a\nb\nc\nd\ne\nf")), 20, 6);
    for _ in 0..5 {
        key(&mut e, Key::Down);
    }
    assert!(e.accepts(Event::Key(Key::PageDown)));
    e.run(Event::Resize(20, 24));
    assert_eq!(e.offset().y, 2);
    assert!(!e.accepts(Event::Key(Key::PageDown)));
}

#[test]
fn resize_keeps_cursor_on_screen() {
    let mut e = Editor::new(Some(chars("f")), Some(chars("a\nb\nc\nd\ne")), 20, 24);
    for _ in 0..4 {
        key(&mut e, Key::Down);
    }
    assert_eq!(e.cursor().y, 4);
    e.run(Event::Resize(20, 5));
    assert_eq!(e.cursor().y, 2);
}

#[test]
fn clean_quit_is_immediate() {
    let mut e = blank();
    key(&mut e, Key::Ctrl('q'));
    assert!(e.has_quit());
    e.run(Event::Key(Key::Char('a')));
    assert_eq!(rows(&e), vec![String::new()]);
}

#[test]
fn dirty_quit_asks_and_cancels() {
    let mut e = blank();
    type_str(&mut e, "x");
    key(&mut e, Key::Ctrl('q'));
    assert!(!e.has_quit());
    assert_eq!(message(&e), (Type::Warning, "Unsaved Changes! Ctrl + Q to force quit".to_string()));
    assert!(matches!(e.mode(), Mode::Confirm(Subject::Quit)));
    key(&mut e, Key::Esc);
    assert!(!e.has_quit());
    assert_eq!(message(&e), (Type::Info, "Quit cancelled".to_string()));
    assert_eq!(rows(&e), vec!["x".to_string()]);
}

#[test]
fn dirty_quit_forced() {
    let mut e = blank();
    type_str(&mut e, "x");
    key(&mut e, Key::Ctrl('q'));
    key(&mut e, Key::Ctrl('q'));
    assert!(e.has_quit());
    let mut f = blank();
    type_str(&mut f, "x");
    key(&mut f, Key::Ctrl('q'));
    key(&mut f, Key::Char('\n'));
    assert!(f.has_quit());
}

#[test]
fn new_document_after_confirmation() {
    let mut e = Editor::new(Some(chars("f.rs")), Some(chars("abc")), 80, 24);
    type_str(&mut e, "x");
    key(&mut e, Key::Ctrl('n'));
    assert_eq!(message(&e), (Type::Warning, "Unsaved Changes! Ctrl + N to force new".to_string()));
    key(&mut e, Key::Ctrl('x'));
    assert_eq!(message(&e), (Type::Info, "New cancelled".to_string()));
    key(&mut e, Key::Ctrl('n'));
    key(&mut e, Key::Ctrl('n'));
    assert_eq!(rows(&e), vec![String::new()]);
    assert_eq!(text(&e.document().name), "[No name]");
    assert!(!e.is_dirty());
}

#[test]
fn save_hands_over_text_and_reports() {
    let mut e = Editor::new(Some(chars("out.txt")), Some(chars("a\nb")), 80, 24);
    type_str(&mut e, "z");
    match key(&mut e, Key::Ctrl('s')) {
        Action::Save(p, t) => {
            assert_eq!(text(&p), "out.txt");
            assert_eq!(text(&t), "za\nb");
        }
        _ => panic!("expected a save"),
    }
    e.save(true);
    assert!(!e.is_dirty());
    assert_eq!(message(&e), (Type::Info, "File saved to out.txt successfully".to_string()));
    type_str(&mut e, "y");
    e.save(false);
    assert!(e.is_dirty());
    assert_eq!(message(&e), (Type::Error, "Failed to save file to out.txt".to_string()));
}

#[test]
fn save_as_prompts_for_a_path() {
    let mut e = blank();
    type_str(&mut e, "fn");
    key(&mut e, Key::Ctrl('w'));
    assert_eq!(message(&e), (Type::Info, "Save as: ".to_string()));
    type_str(&mut e, "m.rq");
    key(&mut e, Key::Backspace);
    type_str(&mut e, "s");
    assert_eq!(message(&e), (Type::Info, "Save as: m.rs".to_string()));
    match key(&mut e, Key::Char('\n')) {
        Action::SaveAs(p, t) => {
            assert_eq!(text(&p), "m.rs");
            assert_eq!(text(&t), "fn");
            e.save_as(&p, true);
        }
        _ => panic!("expected a save as"),
    }
    assert!(matches!(e.mode(), Mode::Normal));
    assert_eq!(text(&e.document().name), "m.rs");
    assert_eq!(message(&e), (Type::Info, "File saved to m.rs successfully".to_string()));
    assert!(e.update().text.contains("Rust"));
}

#[test]
fn save_as_cancelled() {
    let mut e = blank();
    key(&mut e, Key::Ctrl('w'));
    type_str(&mut e, "abc");
    key(&mut e, Key::Esc);
    assert!(matches!(e.mode(), Mode::Normal));
    assert_eq!(message(&e), (Type::Info, "Save as cancelled".to_string()));
    e.save_as(&chars("/no/such"), false);
    assert_eq!(message(&e), (Type::Error, "Failed to save file to /no/such".to_string()));
}

#[test]
fn open_prompts_then_loads() {
    let mut e = blank();
    key(&mut e, Key::Ctrl('o'));
    assert!(matches!(e.mode(), Mode::Prompt(Purpose::Open, _)));
    type_str(&mut e, "a.md");
    match key(&mut e, Key::Char('\n')) {
        Action::Open(p) => {
            assert_eq!(text(&p), "a.md");
            e.open_document(&p, Some(chars("# T\n\nx")));
        }
        _ => panic!("expected an open"),
    }
    assert_eq!(rows(&e), vec!["# T".to_string(), String::new(), "x".to_string()]);
    assert_eq!(text(&e.document().name), "a.md");
    assert_eq!(message(&e), (Type::Info, "Open: a.md".to_string()));
    e.open_document(&chars("gone"), None);
    assert_eq!(message(&e), (Type::Error, "File couldn't be opened".to_string()));
    assert_eq!(rows(&e), vec!["# T".to_string(), String::new(), "x".to_string()]);
}

#[test]
fn open_escape_leaves_prompt_text() {
    let mut e = blank();
    key(&mut e, Key::Ctrl('o'));
    type_str(&mut e, "q");
    key(&mut e, Key::Esc);
    assert!(matches!(e.mode(), Mode::Normal));
    assert_eq!(message(&e), (Type::Info, "Open: q".to_string()));
}

#[test]
fn open_on_dirty_document_asks() {
    let mut e = blank();
    type_str(&mut e, "x");
    key(&mut e, Key::Ctrl('o'));
    assert_eq!(message(&e), (Type::Warning, "Unsaved Changes! Ctrl + O to force open".to_string()));
    key(&mut e, Key::Left);
    assert_eq!(message(&e), (Type::Info, "Open cancelled".to_string()));
    key(&mut e, Key::Ctrl('o'));
    key(&mut e, Key::Ctrl('o'));
    assert_eq!(message(&e), (Type::Info, "Open: ".to_string()));
}

#[test]
fn status_and_command_lines() {
    let mut e = Editor::new(Some(chars("main.rs")), Some(chars("ab\ncd")), 60, 10);
    key(&mut e, Key::Down);
    type_str(&mut e, "q");
    let screen = e.update();
    let lines: Vec<&str> = screen.text.split("\r\n").collect();
    assert_eq!(lines.len(), 10);
    assert!(lines[8].contains(" main.rs[+] \u{fb12}  \u{2502} Rust \u{f1c9} "));
    assert!(lines[8].contains("\u{fa70} 2 / 2 \u{2502} \u{fae6}(1, 1) "));
    assert!(lines[8].starts_with("\x1b[1m\x1b[38;2;80;250;123m\x1b[48;2;68;71;90m"));
    assert!(lines[9].starts_with("\x1b[48;2;40;42;54mWelcome to Ox!"));
    assert!(lines[1].starts_with("\x1b[48;2;40;42;54mqcd"));
    assert!(lines[2].starts_with("\x1b[48;2;40;42;54m~"));
    assert_eq!(screen.cursor.x, 1);
    assert_eq!(screen.cursor.y, 1);
}

#[test]
fn warning_line_is_yellow() {
    let mut e = blank();
    type_str(&mut e, "x");
    key(&mut e, Key::Ctrl('q'));
    let screen = e.update();
    let last = screen.text.split("\r\n").last().unwrap().to_string();
    assert!(last.starts_with("\x1b[1m\x1b[38;5;3m\x1b[48;2;40;42;54mUnsaved"));
    assert!(last.ends_with("\x1b[49m\x1b[39m\x1b[m"));
}

#[test]
fn narrow_terminal_cannot_draw_welcome() {
    let e = Editor::new(None, None, 20, 24);
    assert!(!e.can_draw());
    let f = Editor::new(Some(chars("x")), None, 20, 24);
    assert!(f.can_draw());
    let g = Editor::new(None, None, 33, 24);
    assert!(g.can_draw());
}

#[test]
fn try_run_refuses_faulty_events() {
    let mut e = Editor::new(Some(chars("f")), Some(chars("a\nb\nc\nd\ne\nf")), 20, 6);
    for _ in 0..5 {
        e.try_run(Event::Key(Key::Down)).unwrap();
    }
    e.run(Event::Resize(20, 24));
    assert!(e.try_run(Event::Key(Key::PageDown)).is_none());
    assert_eq!(e.cursor().y, 3);
    assert!(matches!(e.try_run(Event::Key(Key::Up)), Some(Action::Redraw)));
    assert_eq!(e.cursor().y, 2);
}
