use std::path::Path;
use tanken::config::{DaemonConfig, NavigationConfig, PreviewConfig, SearchConfig};

#[test]
fn default_navigation_has_bookmarks() {
    let n = NavigationConfig::default();
    assert!(!n.bookmarks.is_empty());
    assert!(n.show_sidebar);
}

#[test]
fn default_navigation_bookmark_set() {
    // Documented default set: ~/Documents, ~/Downloads, ~/Desktop.
    let n = NavigationConfig::default();
    assert_eq!(n.bookmarks.len(), 3);
    assert_eq!(n.bookmarks[0], "~/Documents");
    assert_eq!(n.bookmarks[1], "~/Downloads");
    assert_eq!(n.bookmarks[2], "~/Desktop");
    assert!(n.show_sidebar);
}

#[test]
fn default_navigation_path_is_absolute() {
    let n = NavigationConfig::default();
    assert!(
        Path::new(&n.default_path).is_absolute(),
        "default_path not absolute: {:?}",
        n.default_path
    );
}

#[test]
fn default_search_excludes_three_noise_sources() {
    let s = SearchConfig::default();
    assert_eq!(s.exclude_patterns.len(), 3);
    assert!(s.exclude_patterns.iter().any(|p| p == "*.DS_Store"));
    assert!(s.exclude_patterns.iter().any(|p| p == "node_modules"));
    assert!(s.exclude_patterns.iter().any(|p| p == ".git"));
}

#[test]
fn default_search_indexes_home_dir() {
    let s = SearchConfig::default();
    assert_eq!(s.index_dirs.len(), 1);
    assert!(Path::new(&s.index_dirs[0]).is_absolute());
}

#[test]
fn default_preview_pins_every_field() {
    let p = PreviewConfig::default();
    assert!(p.enabled);
    assert_eq!(p.max_file_size_mb, 10);
    assert!(p.syntax_highlighting);
}

#[test]
fn default_daemon_is_off_with_five_minute_refresh() {
    let d = DaemonConfig::default();
    assert!(!d.enable);
    assert_eq!(d.index_interval_secs, 300);
    assert_eq!(d.watch_dirs.len(), 1);
}

#[test]
fn settings_start_from_the_given_home_dir() {
    let nav = NavigationConfig::with_home(Some("/home/ada".to_string()));
    assert_eq!(nav.default_path, "/home/ada");
    let search = SearchConfig::with_home(Some("/home/ada".to_string()));
    assert_eq!(search.index_dirs, vec!["/home/ada".to_string()]);
    let daemon = DaemonConfig::with_home(Some("/home/ada".to_string()));
    assert_eq!(daemon.watch_dirs, vec!["/home/ada".to_string()]);
    assert_eq!(daemon.index_interval_secs, 300);
}

#[test]
fn settings_fall_back_to_root_without_home_dir() {
    assert_eq!(NavigationConfig::with_home(None).default_path, "/");
    assert_eq!(SearchConfig::with_home(None).index_dirs, vec!["/".to_string()]);
    assert_eq!(DaemonConfig::with_home(None).watch_dirs, vec!["/".to_string()]);
}
