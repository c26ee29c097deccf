use tanken::pane::{DualPane, Pane};
use tanken::tabs::{Tab, TabManager};

fn tab_at(path: &str) -> Tab {
    let left = Pane::new(path.to_string(), false, Ok(vec![]));
    let right = Pane::new(path.to_string(), false, Ok(vec![]));
    Tab::new(path, DualPane::new(left, right))
}

#[test]
fn tab_manager_basics() {
    let mut tm = TabManager::new(tab_at("/tmp/work"));

    assert_eq!(tm.count(), 1);
    assert_eq!(tm.active, 0);

    // Open a second tab
    tm.open_tab(tab_at("/tmp/work"));
    assert_eq!(tm.count(), 2);
    assert_eq!(tm.active, 1);

    // Switch tabs
    tm.next_tab();
    assert_eq!(tm.active, 0);
    tm.prev_tab();
    assert_eq!(tm.active, 1);

    // Close tab
    assert!(tm.close_tab());
    assert_eq!(tm.count(), 1);

    // Can't close last tab
    assert!(!tm.close_tab());
}

#[test]
fn go_to_tab() {
    let mut tm = TabManager::new(tab_at("/tmp/work"));
    tm.open_tab(tab_at("/tmp/work"));
    tm.open_tab(tab_at("/tmp/work"));

    tm.go_to_tab(0);
    assert_eq!(tm.active, 0);
    tm.go_to_tab(2);
    assert_eq!(tm.active, 2);
    tm.go_to_tab(99); // out of bounds, no change
    assert_eq!(tm.active, 2);
}

#[test]
fn tab_names_follow_directories() {
    assert_eq!(tab_at("/home/user/projects").name, "projects");
    assert_eq!(tab_at("/").name, "/");
    let mut t = tab_at("/home/user");
    t.panes.active_mut().path = String::from("/var/log");
    t.update_name();
    assert_eq!(t.name, "log");
}

#[test]
fn next_then_prev_wraps_around() {
    let mut tm = TabManager::new(tab_at("/a"));
    tm.open_tab(tab_at("/b"));
    tm.open_tab(tab_at("/c"));
    assert_eq!(tm.active, 2);
    tm.next_tab();
    assert_eq!(tm.active, 0);
    tm.prev_tab();
    assert_eq!(tm.active, 2);
    tm.go_to_tab(1);
    assert!(tm.close_tab());
    assert_eq!(tm.active, 1);
    assert_eq!(tm.active_tab().name, "c");
}
