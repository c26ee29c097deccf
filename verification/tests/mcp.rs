use tanken::mcp::{
    content_match, listed_item, lists_entry, name_matches, order_listing, record_hits, search_skips,
    search_step, split_lines, text_window, MatchKind, SearchStep,
};

#[test]
fn listing_rules() {
    assert!(!lists_entry(".env", false));
    assert!(lists_entry(".env", true));
    assert!(lists_entry("a", false));
    let d = listed_item(String::from("d"), Some((true, 4096)));
    assert!(d.is_dir && d.size.is_none());
    let f = listed_item(String::from("f"), Some((false, 12)));
    assert_eq!(f.size, Some(12));
    let u = listed_item(String::from("u"), None);
    assert!(!u.is_dir && u.size.is_none());
}

#[test]
fn listing_orders() {
    let items = vec![
        listed_item(String::from("b"), Some((false, 1))),
        listed_item(String::from("Z"), Some((true, 0))),
        listed_item(String::from("a"), Some((false, 50))),
        listed_item(String::from("c"), None),
    ];
    let by_name: Vec<String> = order_listing(items.clone(), "name").into_iter().map(|i| i.name).collect();
    assert_eq!(by_name, vec!["Z", "a", "b", "c"]);
    let by_size: Vec<String> = order_listing(items, "size").into_iter().map(|i| i.name).collect();
    assert_eq!(by_size, vec!["a", "b", "Z", "c"]);
}

#[test]
fn lines_split_like_str_lines() {
    let text = "one\r\ntwo\n\nthree";
    assert_eq!(split_lines(text), text.lines().collect::<Vec<_>>());
    assert_eq!(split_lines("a\n"), vec!["a"]);
    assert!(split_lines("").is_empty());
}

#[test]
fn text_window_reports_truncation() {
    let w = text_window("1\n2\n3\n", 2);
    assert_eq!(w.lines, vec!["1", "2"]);
    assert!(w.truncated);
    assert_eq!(w.total_lines, 3);
    let w = text_window("1\n2", 50);
    assert_eq!(w.lines.len(), 2);
    assert!(!w.truncated);
}

#[test]
fn search_matching() {
    assert!(search_skips(".cache"));
    assert!(search_skips("target"));
    assert!(!search_skips("__pycache__"));
    assert!(name_matches("ReadMe.md", "readme"));
    assert!(!name_matches("main.rs", "readme"));
    assert_eq!(content_match("alpha\nBeta gamma\n", "beta"), Some(Some(2)));
    assert_eq!(content_match("alpha\nbeta", "a\nb"), Some(None));
    assert_eq!(content_match("alpha", "zeta"), None);
}

#[test]
fn search_records_name_then_content_hits() {
    let mut hits = Vec::new();
    record_hits(&mut hits, "Notes.txt", "/d/Notes.txt", "note", Some("a\nsee NOTES here\n"));
    assert_eq!(hits.len(), 2);
    assert_eq!(hits[0].kind, MatchKind::Filename);
    assert_eq!(hits[1].kind, MatchKind::Content { line: Some(2) });
    assert_eq!(hits[1].path, "/d/Notes.txt");
    record_hits(&mut hits, "other.rs", "/d/other.rs", "note", None);
    assert_eq!(hits.len(), 2);
    record_hits(&mut hits, "other.rs", "/d/other.rs", "note", Some("no match"));
    assert_eq!(hits.len(), 2);
}

#[test]
fn search_steps_stop_skip_and_visit() {
    assert_eq!(search_step(50, 50, "notes.txt", false, true, true), SearchStep::Stop);
    assert_eq!(search_step(0, 0, "src", true, false, false), SearchStep::Stop);
    assert_eq!(search_step(3, 50, ".git", true, false, true), SearchStep::Skip);
    assert_eq!(search_step(3, 50, "node_modules", true, false, true), SearchStep::Skip);
    assert_eq!(search_step(3, 50, "target", true, false, false), SearchStep::Skip);
    assert_eq!(
        search_step(3, 50, "notes.txt", false, true, true),
        SearchStep::Visit { read_content: true, descend: false }
    );
    assert_eq!(
        search_step(3, 50, "notes.txt", false, true, false),
        SearchStep::Visit { read_content: false, descend: false }
    );
    assert_eq!(
        search_step(49, 50, "src", true, false, true),
        SearchStep::Visit { read_content: false, descend: true }
    );
}
