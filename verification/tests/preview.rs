use tanken::preview::{
    after_sniff, detect_language, generate_preview, head_looks_like_text,
    preview_image, preview_metadata, preview_text, preview_to_lines, DirChild, Preview, PreviewStep,
};

/// The lines of a file's content as the runtime reads them.
fn read_lines(content: &str) -> Vec<Option<String>> {
    content.lines().map(|l| Some(l.to_string())).collect()
}

fn child(name: &str, is_dir: bool, size: u64) -> DirChild {
    DirChild { name: name.to_string(), is_dir, size }
}

#[test]
fn preview_nonexistent() {
    let step = generate_preview("/nonexistent_12345", false, false, Ok(0));
    assert!(matches!(step, PreviewStep::Ready(Preview::Empty(_))));
}

#[test]
fn preview_text_file() {
    let content = "fn main() {\n    println!(\"hello\");\n}\n";
    let path = "/tmp/preview/test.rs";
    let step = generate_preview(path, true, false, Ok(content.len() as u64));
    assert!(matches!(step, PreviewStep::ReadLines));
    let preview = preview_text(path, Ok(read_lines(content)));
    match preview {
        Preview::Text { lines, language, total_lines } => {
            assert_eq!(language, "rust");
            assert_eq!(total_lines, 3);
            assert!(lines[0].contains("fn main"));
        }
        _ => panic!("expected text preview"),
    }
}

#[test]
fn preview_directory() {
    // A directory holding the file a.txt ("hello") and the directory subdir.
    let path = "/tmp/preview";
    let step = generate_preview(path, true, true, Ok(0));
    assert!(matches!(step, PreviewStep::ListDirectory));
    let children = vec![child("a.txt", false, 5), child("subdir", true, 4096)];
    let preview = tanken::preview::preview_directory(path, Ok(children));
    match preview {
        Preview::Directory { children, .. } => {
            assert_eq!(children.len(), 2);
            // Dirs should come first
            assert!(children[0].is_dir);
        }
        _ => panic!("expected directory preview"),
    }
}

#[test]
fn detect_language_works() {
    assert_eq!(detect_language("foo.rs"), "rust");
    assert_eq!(detect_language("foo.py"), "python");
    assert_eq!(detect_language("foo.nix"), "nix");
    assert_eq!(detect_language("foo"), "text");
}

#[test]
fn detect_language_ignores_case_and_keeps_unknown() {
    assert_eq!(detect_language("MAIN.RS"), "rust");
    assert_eq!(detect_language("app.tsx"), "react");
    assert_eq!(detect_language("notes.Weird"), "Weird");
}

#[test]
fn plan_depends_on_kind_size_and_extension() {
    assert!(matches!(generate_preview("/d", true, true, Ok(0)), PreviewStep::ListDirectory));
    match generate_preview("/x", true, false, Err(String::from("denied"))) {
        PreviewStep::Ready(Preview::Empty(m)) => assert_eq!(m, "Cannot read: denied"),
        _ => panic!("expected an error preview"),
    }
    match generate_preview("/pics/cat.JPG", true, false, Ok(2048)) {
        PreviewStep::Ready(Preview::Image { format, size, width, height }) => {
            assert_eq!(format, "JPG");
            assert_eq!(size, 2048);
            assert_eq!((width, height), (0, 0));
        }
        _ => panic!("expected an image preview"),
    }
    assert!(matches!(generate_preview("/a/b.toml", true, false, Ok(10)), PreviewStep::ReadLines));
    assert!(matches!(generate_preview("/a/blob", true, false, Ok(10)), PreviewStep::SniffContent { size: 10 }));
    assert!(matches!(
        generate_preview("/a/b.toml", true, false, Ok(20 * 1024 * 1024)),
        PreviewStep::ReadMetadata { size: 20971520 }
    ));
}

#[test]
fn sniffing_tells_text_from_binary() {
    assert!(head_looks_like_text(&Some(b"plain text".to_vec())));
    assert!(head_looks_like_text(&Some(Vec::new())));
    assert!(!head_looks_like_text(&Some(vec![1, 0, 2])));
    assert!(!head_looks_like_text(&None));
    assert!(matches!(after_sniff(7, &Some(vec![0])), PreviewStep::ReadMetadata { size: 7 }));
    assert!(matches!(after_sniff(7, &Some(vec![65])), PreviewStep::ReadLines));
}

#[test]
fn text_preview_keeps_two_hundred_lines_and_stops_at_bad_line() {
    let many: Vec<Option<String>> = (0..250).map(|i| Some(format!("line {i}"))).collect();
    match preview_text("/f.txt", Ok(many)) {
        Preview::Text { lines, total_lines, language } => {
            assert_eq!(lines.len(), 200);
            assert_eq!(total_lines, 250);
            assert_eq!(language, "txt");
        }
        _ => panic!("expected text"),
    }
    let broken = vec![Some(String::from("a")), None, Some(String::from("c"))];
    match preview_text("/f", Ok(broken)) {
        Preview::Text { lines, total_lines, .. } => {
            assert_eq!(lines, vec!["a"]);
            assert_eq!(total_lines, 2);
        }
        _ => panic!("expected text"),
    }
    match preview_text("/f", Err(String::from("gone"))) {
        Preview::Empty(m) => assert_eq!(m, "Cannot open: gone"),
        _ => panic!("expected an error preview"),
    }
}

#[test]
fn directory_preview_orders_and_sums() {
    let p = tanken::preview::preview_directory(
        "/d",
        Ok(vec![child("b.txt", false, 10), child("Zdir", true, 4096), child("a.txt", false, 5), child("adir", true, 1)]),
    );
    match &p {
        Preview::Directory { path, children, total_size } => {
            assert_eq!(path, "/d");
            let names: Vec<&str> = children.iter().map(|c| c.name.as_str()).collect();
            assert_eq!(names, vec!["adir", "Zdir", "a.txt", "b.txt"]);
            assert_eq!(*total_size, 4112);
        }
        _ => panic!("expected directory"),
    }
    let lines = preview_to_lines(&p);
    assert_eq!(lines[0], " 2 dirs, 2 files (4.02 KiB)");
    assert_eq!(lines[1], "");
    assert_eq!(lines[2], "  adir/");
    assert_eq!(lines[4], "  a.txt");
    match tanken::preview::preview_directory("/d", Err(String::from("denied"))) {
        Preview::Empty(m) => assert_eq!(m, "Cannot read directory: denied"),
        _ => panic!("expected an error preview"),
    }
}

#[test]
fn lines_of_text_preview() {
    let p = Preview::Text { lines: vec![String::from("fn main() {}")], language: String::from("rust"), total_lines: 3 };
    let lines = preview_to_lines(&p);
    assert_eq!(lines, vec![" [rust] 3 lines", "", "    1 | fn main() {}", "  ... (2 more lines)"]);
}

#[test]
fn lines_of_long_directory_listing() {
    let children: Vec<DirChild> = (0..55).map(|i| child(&format!("f{i:02}"), false, 0)).collect();
    let p = Preview::Directory { path: String::from("/d"), children, total_size: 0 };
    let lines = preview_to_lines(&p);
    assert_eq!(lines.len(), 2 + 50 + 1);
    assert_eq!(lines[0], " 0 dirs, 55 files (0 B)");
    assert_eq!(lines[52], "  ... (5 more)");
}

#[test]
fn lines_of_metadata_image_and_empty() {
    let m = preview_metadata("/bin/tool", 1024, Some(0o755), false, false, None);
    assert_eq!(preview_to_lines(&m), vec![" Type: binary", " Size: 1 KiB", " Perm: -rwxr-xr-x", " Modified: unknown"]);
    let m = preview_metadata("/x/data.bin", 0, None, false, false, Some(0));
    assert_eq!(preview_to_lines(&m)[0], " Type: BIN");
    assert_eq!(preview_to_lines(&m)[3], " Modified: 1970-01-01 00:00");
    let i = preview_image("png", 0);
    assert_eq!(preview_to_lines(&i), vec![" Image: PNG", " Size: 0 B", "", " (image preview requires GPU renderer)"]);
    assert_eq!(preview_to_lines(&Preview::Empty(String::from("File not found"))), vec![" File not found"]);
}
