use tanken::input::Mode;
use tanken::platform::FileEntry;
use tanken::render::{
    entry_line, input_line, main_columns, mode_label, row_style, shows_input_line, status_left,
    status_right, tab_bar_layout, tab_label, truncate_name, RowStyle,
};

#[test]
fn truncate_name_cuts_long_names() {
    assert_eq!(truncate_name("short.txt", 29), "short.txt");
    assert_eq!(truncate_name("abcdefghij", 8), "abcde...");
    assert_eq!(truncate_name("abcdefghij", 2), "ab");
    assert_eq!(truncate_name("abcdefghij", 10), "abcdefghij");
}

#[test]
fn file_list_rows() {
    let dir = FileEntry { name: String::from("src"), path: String::from("/p/src"), is_dir: true, size: 4096, modified: 0 };
    let line = entry_line(&dir);
    assert_eq!(line, format!("/{:<30} {:>8}  {}", "src", "", "1970-01-01 00:00"));
    let file = FileEntry { name: String::from("a.txt"), path: String::from("/p/a.txt"), is_dir: false, size: 1024, modified: 0 };
    assert_eq!(entry_line(&file), format!(" {:<30} {:>8}  {}", "a.txt", "1 KiB", "1970-01-01 00:00"));
}

#[test]
fn row_styles_rank_cursor_then_selection() {
    assert_eq!(row_style(true, true, true), RowStyle::CursorSelected);
    assert_eq!(row_style(true, false, true), RowStyle::Cursor);
    assert_eq!(row_style(false, true, true), RowStyle::Selected);
    assert_eq!(row_style(false, false, true), RowStyle::Directory);
    assert_eq!(row_style(false, false, false), RowStyle::Plain);
}

#[test]
fn status_bar_texts() {
    assert_eq!(mode_label(Mode::Create { is_dir: true }), "MKDIR");
    assert_eq!(status_left(Mode::Normal, "/home"), " NORMAL | /home");
    assert_eq!(status_right(0, 3, 0), "1/3 ");
    assert_eq!(status_right(2, 3, 2), "2 selected | 3/3 ");
    assert_eq!(status_right(0, 0, 0), " ");
}

#[test]
fn input_line_prompts() {
    assert!(shows_input_line(Mode::Search));
    assert!(!shows_input_line(Mode::Visual));
    assert_eq!(input_line(Mode::Command, "q"), ":q");
    assert_eq!(input_line(Mode::Create { is_dir: false }, "x"), "touch: x");
    assert_eq!(input_line(Mode::Normal, "x"), "x");
}

#[test]
fn columns_split_main_area() {
    assert_eq!(main_columns(100), (30, 35, 35));
    assert_eq!(main_columns(20), (8, 8, 4));
}

#[test]
fn tab_bar_drops_tabs_that_do_not_fit() {
    let labels = vec![tab_label("home"), tab_label("projects"), tab_label("x")];
    assert_eq!(labels[0], " home ");
    assert_eq!(tab_bar_layout(&labels, 0, 80), vec![(0, 6), (7, 10), (18, 3)]);
    assert_eq!(tab_bar_layout(&labels, 0, 12), vec![(0, 6)]);
}
