use tanken::fs::{creation_check, list_directory, renamed_path, transfer_check, trash_entry, FsError};
use tanken::platform::FileEntry;

fn entry(name: &str) -> FileEntry {
    FileEntry { name: name.to_string(), path: format!("/d/{name}"), is_dir: false, size: 0, modified: 0 }
}

#[test]
fn listing_is_sorted_case_insensitively_without_hidden() {
    let read = Ok(vec![entry("b"), entry(".h"), entry("A"), entry("c")]);
    let out = list_directory(read, false).unwrap();
    let names: Vec<&str> = out.iter().map(|e| e.name.as_str()).collect();
    assert_eq!(names, vec!["A", "b", "c"]);
    let out = list_directory(Ok(vec![entry("b"), entry(".h")]), true).unwrap();
    assert_eq!(out.len(), 2);
    assert_eq!(out[0].name, ".h");
}

#[test]
fn not_found_listing_error_passes_through() {
    let result = list_directory(Err(FsError::NotFound(String::from("/nonexistent_path_12345"))), false);
    assert!(matches!(result, Err(FsError::NotFound(p)) if p == "/nonexistent_path_12345"));
}

#[test]
fn error_messages() {
    assert_eq!(FsError::NotFound(String::from("/x")).describe(), "not found: /x");
    assert_eq!(FsError::AlreadyExists(String::from("/y")).describe(), "already exists: /y");
    assert_eq!(FsError::Platform(String::from("boom")).describe(), "platform: boom");
    let io = FsError::Io(std::io::Error::new(std::io::ErrorKind::Other, "disk"));
    assert_eq!(io.describe(), "io: disk");
}

#[test]
fn rename_goes_next_to_the_original() {
    assert_eq!(renamed_path("/a/b/old.txt", "new.txt"), "/a/b/new.txt");
    assert_eq!(renamed_path("/", "x"), "/x");
}

#[test]
fn operation_checks() {
    assert!(matches!(trash_entry("/x", false, Ok(())), Err(FsError::NotFound(p)) if p == "/x"));
    assert!(trash_entry("/x", true, Ok(())).is_ok());
    assert!(matches!(trash_entry("/x", true, Err(String::from("no trash"))), Err(FsError::Platform(m)) if m == "no trash"));
    assert!(matches!(transfer_check("/s", "/d", false, false), Err(FsError::NotFound(p)) if p == "/s"));
    assert!(matches!(transfer_check("/s", "/d", true, true), Err(FsError::AlreadyExists(p)) if p == "/d"));
    assert!(transfer_check("/s", "/d", true, false).is_ok());
    assert!(matches!(creation_check("/n", true), Err(FsError::AlreadyExists(_))));
    assert!(creation_check("/n", false).is_ok());
}
