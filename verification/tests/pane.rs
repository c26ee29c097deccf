use tanken::fs::FsError;
use tanken::pane::{format_permissions, format_size, format_time, DualPane, Pane, SortDirection, SortField};
use tanken::platform::FileEntry;

fn file(name: &str, is_dir: bool, size: u64) -> FileEntry {
    FileEntry {
        name: name.to_string(),
        path: format!("/work/{name}"),
        is_dir,
        size,
        modified: 0,
    }
}

fn pane_with(entries: Vec<FileEntry>) -> Pane {
    Pane::new(String::from("/work"), false, Ok(entries))
}

#[test]
fn format_size_works() {
    assert_eq!(format_size(0), "0 B");
    assert_eq!(format_size(1024), "1 KiB");
    assert_eq!(format_size(1_048_576), "1 MiB");
}

#[test]
fn format_time_works() {
    let time: i128 = 1_700_000_000 * 1_000_000_000;
    let s = format_time(time);
    assert!(s.contains("2023"));
}

#[test]
fn sort_entries_dirs_first() {
    let pane = pane_with(vec![file("b.txt", false, 0), file("a_dir", true, 0), file("c.txt", false, 0)]);
    // Dirs should come first
    assert!(pane.entries[0].is_dir);
}

#[test]
fn cursor_navigation() {
    let mut pane = pane_with(vec![file("a.txt", false, 0), file("b.txt", false, 0), file("c.txt", false, 0)]);
    assert_eq!(pane.cursor, 0);
    pane.cursor_down();
    assert_eq!(pane.cursor, 1);
    pane.cursor_down();
    assert_eq!(pane.cursor, 2);
    pane.cursor_down(); // should not go past end
    assert_eq!(pane.cursor, 2);
    pane.cursor_up();
    assert_eq!(pane.cursor, 1);
    pane.cursor_top();
    assert_eq!(pane.cursor, 0);
    pane.cursor_bottom();
    assert_eq!(pane.cursor, 2);
}

#[test]
fn toggle_selection() {
    let mut pane = pane_with(vec![file("a.txt", false, 0), file("b.txt", false, 0)]);
    assert!(pane.selected.is_empty());
    pane.toggle_selection();
    assert!(pane.selected.contains(&0));
    pane.toggle_selection();
    assert!(pane.selected.is_empty());
}

#[test]
fn listing_hides_dot_files_and_sorts_by_name() {
    let pane = pane_with(vec![
        file("Zeta.txt", false, 1),
        file(".hidden", false, 1),
        file("alpha.txt", false, 1),
        file("docs", true, 1),
    ]);
    let names: Vec<&str> = pane.entries.iter().map(|e| e.name.as_str()).collect();
    assert_eq!(names, vec!["docs", "alpha.txt", "Zeta.txt"]);
}

#[test]
fn failed_read_shows_nothing() {
    let pane = Pane::new(String::from("/gone"), false, Err(FsError::NotFound(String::from("/gone"))));
    assert!(pane.entries.is_empty());
    assert_eq!(pane.cursor, 0);
}

#[test]
fn sort_by_size_descending_keeps_dirs_first() {
    let mut pane = pane_with(vec![file("small", false, 1), file("big", false, 100), file("dir", true, 5)]);
    pane.set_sort(SortField::Size, SortDirection::Descending);
    pane.refresh(Ok(vec![file("small", false, 1), file("big", false, 100), file("dir", true, 5)]));
    let names: Vec<&str> = pane.entries.iter().map(|e| e.name.as_str()).collect();
    assert_eq!(names, vec!["dir", "big", "small"]);
}

#[test]
fn filter_keeps_matching_names() {
    let mut pane = pane_with(vec![file("a", false, 1)]);
    pane.toggle_selection();
    pane.set_filter(String::from("READ"), Ok(vec![file("readme.md", false, 1), file("main.rs", false, 1)]));
    assert_eq!(pane.filter, "READ");
    assert_eq!(pane.entries.len(), 1);
    assert_eq!(pane.entries[0].name, "readme.md");
    assert!(pane.selected.is_empty());
}

#[test]
fn selection_in_index_order_or_cursor() {
    let mut pane = pane_with(vec![file("a", false, 0), file("b", false, 0), file("c", false, 0)]);
    pane.cursor_down();
    assert_eq!(pane.selected_paths(), vec!["/work/b"]);
    pane.cursor_bottom();
    pane.toggle_selection();
    pane.cursor_top();
    pane.toggle_selection();
    assert_eq!(pane.selected_paths(), vec!["/work/a", "/work/c"]);
    pane.select_all();
    assert_eq!(pane.selected_entries().len(), 3);
    pane.clear_selection();
    assert!(pane.selected.is_empty());
}

#[test]
fn scroll_follows_cursor() {
    let entries: Vec<FileEntry> = (0..20).map(|i| file(&format!("f{i:02}"), false, 0)).collect();
    let mut pane = pane_with(entries);
    pane.cursor_bottom();
    pane.update_scroll(5);
    assert_eq!(pane.scroll_offset, 15);
    pane.cursor_top();
    pane.update_scroll(5);
    assert_eq!(pane.scroll_offset, 0);
}

#[test]
fn enter_and_parent_navigation() {
    let mut pane = pane_with(vec![file("sub", true, 0), file("x.txt", false, 0)]);
    pane.toggle_selection();
    assert_eq!(pane.entry_target().as_deref(), Some("/work/sub"));
    assert!(pane.enter(Ok(vec![file("inner.txt", false, 0)])));
    assert_eq!(pane.path, "/work/sub");
    assert_eq!(pane.cursor, 0);
    assert!(pane.selected.is_empty());
    assert_eq!(pane.entries[0].name, "inner.txt");
    assert_eq!(pane.parent_target().as_deref(), Some("/work"));
    assert!(pane.go_parent(Ok(vec![file("sub", true, 0)])));
    assert_eq!(pane.path, "/work");
    assert_eq!(pane.entries.len(), 1);
    let mut root = Pane::new(String::from("/"), false, Ok(vec![]));
    assert!(root.parent_target().is_none());
    assert!(!root.go_parent(Ok(vec![file("never", false, 0)])));
    assert!(root.entries.is_empty());
    assert!(root.entry_target().is_none());
    assert!(!root.enter(Ok(vec![])));
}

#[test]
fn navigate_and_toggle_hidden_reload() {
    let mut pane = pane_with(vec![file("a", false, 0)]);
    pane.select_all();
    pane.navigate_to(String::from("/etc/hosts"), false, Ok(vec![]));
    assert_eq!(pane.path, "/work");
    assert_eq!(pane.selected.len(), 1);
    pane.navigate_to(String::from("/tmp"), true, Ok(vec![file(".x", false, 0), file("y", false, 0)]));
    assert_eq!(pane.path, "/tmp");
    assert!(pane.selected.is_empty());
    assert_eq!(pane.entries.len(), 1);
    pane.toggle_hidden(Ok(vec![file(".x", false, 0), file("y", false, 0)]));
    assert!(pane.show_hidden);
    assert_eq!(pane.entries.len(), 2);
}

#[test]
fn permissions_text() {
    assert_eq!(format_permissions(Some(0o755), true, false), "drwxr-xr-x");
    assert_eq!(format_permissions(Some(0o644), false, false), "-rw-r--r--");
    assert_eq!(format_permissions(Some(0o777), false, true), "lrwxrwxrwx");
    assert_eq!(format_permissions(None, false, false), "----------");
}

#[test]
fn dual_pane_switches_active_side() {
    let left = pane_with(vec![file("l", false, 0)]);
    let right = Pane::new(String::from("/other"), false, Ok(vec![]));
    let mut d = DualPane::new(left, right);
    assert_eq!(d.active().path, "/work");
    d.toggle_active();
    assert_eq!(d.active().path, "/other");
    assert_eq!(d.inactive().path, "/work");
    d.active_mut().path = String::from("/changed");
    assert_eq!(d.right.path, "/changed");
}
