use tanken::platform::FileEntry;
use tanken::search::{rank_matches, skip_when_indexing, SearchEngine};

fn make_entry(name: &str, is_dir: bool) -> FileEntry {
    FileEntry { name: name.to_string(), path: format!("/test/{name}"), is_dir, size: 0, modified: 0 }
}

#[test]
fn fuzzy_search_basic() {
    let engine = SearchEngine::new();
    let entries = vec![
        make_entry("Cargo.toml", false),
        make_entry("Cargo.lock", false),
        make_entry("README.md", false),
        make_entry("src", true),
    ];

    let results = engine.fuzzy_search("cargo", &entries);
    assert_eq!(results.len(), 2);
    // Both Cargo files should match
    assert!(results.iter().all(|r| r.name.starts_with("Cargo")));
}

#[test]
fn fuzzy_search_empty_query() {
    let engine = SearchEngine::new();
    let entries = vec![make_entry("a.txt", false), make_entry("b.txt", false)];

    let results = engine.fuzzy_search("", &entries);
    assert_eq!(results.len(), 2);
}

#[test]
fn fuzzy_search_no_match() {
    let engine = SearchEngine::new();
    let entries = vec![make_entry("hello.txt", false)];

    let results = engine.fuzzy_search("zzzzz", &entries);
    assert!(results.is_empty());
}

#[test]
fn fuzzy_search_orders_by_score() {
    let engine = SearchEngine::default();
    let entries = vec![make_entry("xaxbxc", false), make_entry("abc", false), make_entry("nothing", false)];
    let results = engine.fuzzy_search("abc", &entries);
    assert_eq!(results.len(), 2);
    assert!(results[0].score >= results[1].score);
    assert_eq!(results[0].name, "abc");
    assert_eq!(results[0].path, "/test/abc");
    let unscored = engine.fuzzy_search("", &entries);
    assert!(unscored.iter().all(|r| r.score == 0));
    assert_eq!(unscored[2].name, "nothing");
}

#[test]
fn uppercase_query_is_case_sensitive() {
    let engine = SearchEngine::new();
    let entries = vec![make_entry("cargo.toml", false), make_entry("Cargo.lock", false)];
    let results = engine.fuzzy_search("Cargo", &entries);
    assert_eq!(results.len(), 1);
    assert_eq!(results[0].name, "Cargo.lock");
}

#[test]
fn index_skips_noise() {
    assert!(skip_when_indexing(".git"));
    assert!(skip_when_indexing("node_modules"));
    assert!(skip_when_indexing("target"));
    assert!(skip_when_indexing("__pycache__"));
    assert!(!skip_when_indexing("src"));
}

#[test]
fn ranking_given_scores() {
    let entries = vec![make_entry("a", false), make_entry("b", true), make_entry("c", false), make_entry("d", false)];
    let ranked = rank_matches(&entries, &vec![Some(5), None, Some(9), Some(5)]);
    let names: Vec<&str> = ranked.iter().map(|r| r.name.as_str()).collect();
    assert_eq!(names, vec!["c", "a", "d"]);
    assert_eq!(ranked[0].score, 9);
    assert!(rank_matches(&entries, &vec![None, None, None, None]).is_empty());
}
