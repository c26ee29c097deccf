use tanken::bookmarks::{expand_tilde, expand_tilde_with, BookmarkStore, MAX_RECENT};

#[test]
fn expand_tilde_works() {
    let expanded = expand_tilde("~/Documents");
    assert!(!expanded.starts_with("~"));
    assert!(expanded.ends_with("Documents"));
}

#[test]
fn expand_tilde_no_op() {
    let path = expand_tilde("/absolute/path");
    assert_eq!(path, "/absolute/path");
}

#[test]
fn bookmark_add_remove() {
    let mut store = BookmarkStore::default();
    let path = String::from("/tmp/test_bookmark");

    assert!(store.add_bookmark(path.clone()));
    assert!(!store.add_bookmark(path.clone())); // duplicate
    assert!(store.is_bookmarked(&path));
    assert!(store.remove_bookmark(&path));
    assert!(!store.is_bookmarked(&path));
}

#[test]
fn recent_dirs_ordering() {
    let mut store = BookmarkStore::default();

    store.visit(String::from("/a"));
    store.visit(String::from("/b"));
    store.visit(String::from("/c"));

    assert_eq!(store.recent[0], "/c");
    assert_eq!(store.recent[1], "/b");
    assert_eq!(store.recent[2], "/a");

    // Re-visit /a → should move to front
    store.visit(String::from("/a"));
    assert_eq!(store.recent[0], "/a");
    assert_eq!(store.recent.len(), 3);
}

#[test]
fn recent_dirs_max_limit() {
    let mut store = BookmarkStore::default();

    for i in 0..60 {
        store.visit(format!("/dir_{i}"));
    }

    assert!(store.recent.len() <= MAX_RECENT);
}

#[test]
fn expand_tilde_against_given_home() {
    assert_eq!(expand_tilde_with("~/Documents", Some("/home/u")), "/home/u/Documents");
    assert_eq!(expand_tilde_with("~", Some("/home/u")), "/home/u");
    assert_eq!(expand_tilde_with("~user/x", Some("/home/u")), "~user/x");
    assert_eq!(expand_tilde_with("~/x", None), "~/x");
}

#[test]
fn paths_compare_as_paths() {
    let mut store = BookmarkStore::default();
    assert!(store.add_bookmark(String::from("/tmp/a/")));
    // "/tmp/a" is the same path as "/tmp/a/"
    assert!(store.is_bookmarked("/tmp/a"));
    assert!(!store.add_bookmark(String::from("/tmp/a")));
    assert!(store.remove_bookmark("/tmp/a"));
    assert!(store.bookmarks.is_empty());
    assert!(!store.remove_bookmark("/tmp/a"));
}

#[test]
fn visit_keeps_most_recent_fifty() {
    let mut store = BookmarkStore::default();
    for i in 0..60 {
        store.visit(format!("/dir_{i}"));
    }
    assert_eq!(store.recent.len(), MAX_RECENT);
    assert_eq!(store.recent[0], "/dir_59");
    assert_eq!(store.recent[MAX_RECENT - 1], "/dir_10");
}

#[test]
fn merge_defaults_appends_missing_bookmarks() {
    let mut store = BookmarkStore::default();
    store.add_bookmark(String::from("/home/u/Documents"));
    let config = vec![String::from("~/Documents"), String::from("~/Desktop"), String::from("/srv")];
    let store = store.merge_defaults(&config, Some("/home/u"));
    assert_eq!(store.bookmarks, vec!["/home/u/Documents", "/home/u/Desktop", "/srv"]);
}
