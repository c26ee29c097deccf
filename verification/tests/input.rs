use tanken::input::{parse_command, Action, InputHandler, KeyCode, KeyEvent, Mode};

fn key(c: char) -> KeyEvent {
    KeyEvent { code: KeyCode::Char(c), control: false }
}

fn special(code: KeyCode) -> KeyEvent {
    KeyEvent { code, control: false }
}

#[test]
fn parse_command_quit() {
    assert!(matches!(parse_command("q"), Action::Quit));
    assert!(matches!(parse_command("quit"), Action::Quit));
}

#[test]
fn parse_command_mkdir() {
    match parse_command("mkdir test_dir") {
        Action::CreateDir(name) => assert_eq!(name, "test_dir"),
        _ => panic!("expected CreateDir"),
    }
}

#[test]
fn parse_command_sort() {
    assert!(matches!(parse_command("sort name"), Action::SortByName));
    assert!(matches!(parse_command("sort size"), Action::SortBySize));
}

#[test]
fn mode_default_is_normal() {
    let handler = InputHandler::new();
    assert_eq!(handler.mode, Mode::Normal);
}

#[test]
fn parse_command_other_words() {
    assert!(matches!(parse_command("touch notes.txt"), Action::CreateFile(n) if n == "notes.txt"));
    assert!(matches!(parse_command("sort date"), Action::SortByModified));
    assert!(matches!(parse_command("sort type"), Action::SortByExtension));
    assert!(matches!(parse_command("bm"), Action::BookmarkAdd));
    assert!(matches!(parse_command("mkdir"), Action::Nothing));
    assert!(matches!(parse_command("frobnicate"), Action::Nothing));
    assert!(matches!(parse_command("cd /tmp"), Action::CommandExecute(c) if c == "cd /tmp"));
}

#[test]
fn gg_and_dd_sequences() {
    let mut h = InputHandler::new();
    assert!(matches!(h.handle_key(key('g')), Action::Nothing));
    assert_eq!(h.pending_key, Some('g'));
    assert!(matches!(h.handle_key(key('g')), Action::CursorTop));
    assert_eq!(h.pending_key, None);
    assert!(matches!(h.handle_key(key('d')), Action::Nothing));
    assert!(matches!(h.handle_key(key('d')), Action::Delete));
    assert!(matches!(h.handle_key(key('d')), Action::Nothing));
    assert!(matches!(h.handle_key(key('x')), Action::Nothing));
    assert_eq!(h.pending_key, None);
}

#[test]
fn command_mode_round_trip() {
    let mut h = InputHandler::new();
    assert!(matches!(h.handle_key(key(':')), Action::CommandStart));
    assert_eq!(h.mode, Mode::Command);
    for c in "mkdir x".chars() {
        h.handle_key(key(c));
    }
    assert_eq!(h.input_buffer, "mkdir x");
    match h.handle_key(special(KeyCode::Enter)) {
        Action::CommandExecute(cmd) => assert_eq!(cmd, "mkdir x"),
        _ => panic!("expected CommandExecute"),
    }
    assert_eq!(h.mode, Mode::Normal);
    assert!(h.input_buffer.is_empty());
}

#[test]
fn escape_returns_to_normal() {
    let mut h = InputHandler::new();
    h.handle_key(key('/'));
    assert_eq!(h.mode, Mode::Search);
    assert!(matches!(h.handle_key(key('a')), Action::SearchUpdate(q) if q == "a"));
    assert!(matches!(h.handle_key(special(KeyCode::Backspace)), Action::SearchUpdate(q) if q.is_empty()));
    assert!(matches!(h.handle_key(special(KeyCode::Esc)), Action::SearchCancel));
    assert_eq!(h.mode, Mode::Normal);
    h.handle_key(key('v'));
    assert_eq!(h.mode, Mode::Visual);
    assert!(matches!(h.handle_key(special(KeyCode::Esc)), Action::ExitVisual));
    assert_eq!(h.mode, Mode::Normal);
}

#[test]
fn control_keys_manage_tabs() {
    let mut h = InputHandler::new();
    assert!(matches!(h.handle_key(KeyEvent { code: KeyCode::Char('t'), control: true }), Action::NewTab));
    assert!(matches!(h.handle_key(KeyEvent { code: KeyCode::Char('w'), control: true }), Action::CloseTab));
    assert!(matches!(h.handle_key(KeyEvent { code: KeyCode::Char('c'), control: true }), Action::Quit));
    assert!(matches!(h.handle_key(key('t')), Action::Nothing));
}

#[test]
fn commands_are_trimmed_of_unicode_whitespace() {
    assert!(matches!(parse_command("  q \t"), Action::Quit));
    assert!(matches!(parse_command("\u{3000}quit\u{a0}"), Action::Quit));
    assert!(matches!(parse_command("mkdir\u{2003}x"), Action::Nothing));
}
