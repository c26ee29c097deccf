use tanken::app::{App, Request};
use tanken::bookmarks::BookmarkStore;
use tanken::input::Action;
use tanken::pane::{DualPane, Pane};
use tanken::platform::FileEntry;
use tanken::tabs::Tab;

fn entry(name: &str, is_dir: bool) -> FileEntry {
    FileEntry { name: name.to_string(), path: format!("/w/{name}"), is_dir, size: 0, modified: 0 }
}

fn app() -> App {
    let left = Pane::new(String::from("/w"), false, Ok(vec![entry("a.txt", false), entry("b.txt", false), entry("sub", true)]));
    let right = Pane::new(String::from("/other"), false, Ok(vec![]));
    App::new(Tab::new("/w", DualPane::new(left, right)), BookmarkStore::default())
}

#[test]
fn yank_then_paste_copies_into_current_directory() {
    let mut a = app();
    a.process_action(Action::CursorDown);
    a.process_action(Action::Yank);
    assert_eq!(a.message.as_deref(), Some("Yanked 1 item(s)"));
    a.process_action(Action::TogglePane);
    let step = a.process_action(Action::Paste);
    match step.request {
        Request::Transfer { sources, targets, is_cut } => {
            assert_eq!(sources, vec!["/w/a.txt"]);
            assert_eq!(targets, vec!["/other/a.txt"]);
            assert!(!is_cut);
        }
        _ => panic!("expected a transfer"),
    }
    assert!(a.clipboard.is_some());
    a.finish_transfer(false, &vec![true]);
    assert_eq!(a.message.as_deref(), Some("Copied 1 item(s)"));
}

#[test]
fn paste_with_empty_clipboard() {
    let mut a = app();
    let step = a.process_action(Action::Paste);
    assert!(matches!(step.request, Request::Done));
    assert_eq!(a.message.as_deref(), Some("Clipboard is empty"));
}

#[test]
fn quit_and_bookmark_commands() {
    let mut a = app();
    let step = a.process_action(Action::CommandExecute(String::from("bm")));
    assert!(step.save_bookmarks);
    assert!(a.bookmarks.is_bookmarked("/w"));
    let step = a.process_action(Action::BookmarkAdd);
    assert!(!step.save_bookmarks);
    assert_eq!(a.message.as_deref(), Some("Already bookmarked"));
    a.process_action(Action::CommandExecute(String::from("q")));
    assert!(a.should_quit);
}

#[test]
fn last_tab_cannot_close() {
    let mut a = app();
    a.process_action(Action::CloseTab);
    assert_eq!(a.message.as_deref(), Some("Cannot close last tab"));
    assert_eq!(a.tabs.count(), 1);
}
