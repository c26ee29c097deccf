//! File preview: text content, directory summaries, metadata.
//!
//! Which preview a path gets is decided here from what is known of it
//! (whether it exists, is a directory, its size and extension, the first
//! bytes of its content); the reads themselves are the caller's. Text files
//! get their first lines with numbers, directories a child listing, and
//! binary files their metadata.

use vstd::prelude::*;
use crate::order::{SortKey, KeyView, key_views, sort_by_keys, stably_sorted};
use crate::pane::{format_permissions, format_size, format_time, human_size, permission_text, time_text};
use crate::path::{extension_of, path_extension};
use crate::text::{
    chars_equal, chars_of, concat2, concat3, decimal, lowercase, owned, pad_left, push_decimal,
    push_padded_left, string_of, to_lower, to_upper, uppercase,
};

verus! {

/// Maximum lines kept for a text preview.
pub const MAX_PREVIEW_LINES: usize = 200;

/// Maximum file size for which a text preview is attempted (10 MiB).
pub const MAX_TEXT_SIZE: u64 = 10485760;

/// How many leading bytes are inspected to tell text from binary.
pub const SNIFF_BYTES: usize = 8192;

/// How many children a directory preview lists.
pub const MAX_LISTED_CHILDREN: usize = 50;

/// A child entry in a directory preview.
#[derive(Debug)]
pub struct DirChild {
    pub name: String,
    pub is_dir: bool,
    pub size: u64,
}

impl Clone for DirChild {
    fn clone(&self) -> (r: Self)
        ensures
            r == *self,
    {
        DirChild { name: self.name.clone(), is_dir: self.is_dir, size: self.size }
    }
}

/// A preview of a file or directory.
#[derive(Debug)]
pub enum Preview {
    /// Text file content (lines).
    Text { lines: Vec<String>, language: String, total_lines: usize },
    /// Directory listing summary.
    Directory { path: String, children: Vec<DirChild>, total_size: u64 },
    /// Binary file or unsupported: just show metadata.
    Metadata { file_type: String, size: u64, permissions: String, modified: String },
    /// Image file metadata.
    Image { width: u32, height: u32, format: String, size: u64 },
    /// Nothing to preview (missing file, unreadable, ...), with the reason.
    Empty(String),
}

/// A directory child as plain values.
pub struct ChildView {
    pub name: Seq<char>,
    pub is_dir: bool,
    pub size: u64,
}

impl View for DirChild {
    type V = ChildView;

    open spec fn view(&self) -> ChildView {
        ChildView { name: self.name@, is_dir: self.is_dir, size: self.size }
    }
}

/// The views of a sequence of children.
pub open spec fn child_views(cs: Seq<DirChild>) -> Seq<ChildView> {
    cs.map_values(|c: DirChild| c@)
}

/// The texts of a sequence of strings.
pub open spec fn texts(ls: Seq<String>) -> Seq<Seq<char>> {
    ls.map_values(|s: String| s@)
}

/// A preview as plain values.
pub enum PreviewView {
    Text { lines: Seq<Seq<char>>, language: Seq<char>, total_lines: nat },
    Directory { path: Seq<char>, children: Seq<ChildView>, total_size: u64 },
    Metadata { file_type: Seq<char>, size: u64, permissions: Seq<char>, modified: Seq<char> },
    Image { width: u32, height: u32, format: Seq<char>, size: u64 },
    Empty(Seq<char>),
}

impl View for Preview {
    type V = PreviewView;

    open spec fn view(&self) -> PreviewView {
        match self {
            Preview::Text { lines, language, total_lines } => PreviewView::Text {
                lines: texts(lines@),
                language: language@,
                total_lines: *total_lines as nat,
            },
            Preview::Directory { path, children, total_size } => PreviewView::Directory {
                path: path@,
                children: child_views(children@),
                total_size: *total_size,
            },
            Preview::Metadata { file_type, size, permissions, modified } => PreviewView::Metadata {
                file_type: file_type@,
                size: *size,
                permissions: permissions@,
                modified: modified@,
            },
            Preview::Image { width, height, format, size } => PreviewView::Image {
                width: *width,
                height: *height,
                format: format@,
                size: *size,
            },
            Preview::Empty(msg) => PreviewView::Empty(msg@),
        }
    }
}

/// The language named by a lower-cased extension, when it is one of the
/// known ones.
pub open spec fn known_language(ext: Seq<char>) -> Option<Seq<char>> {
    if ext == "rs"@ {
        Some("rust"@)
    } else if ext == "py"@ {
        Some("python"@)
    } else if ext == "js"@ || ext == "mjs"@ || ext == "cjs"@ {
        Some("javascript"@)
    } else if ext == "ts"@ || ext == "mts"@ || ext == "cts"@ {
        Some("typescript"@)
    } else if ext == "tsx"@ || ext == "jsx"@ {
        Some("react"@)
    } else if ext == "go"@ {
        Some("go"@)
    } else if ext == "c"@ || ext == "h"@ {
        Some("c"@)
    } else if ext == "cpp"@ || ext == "cc"@ || ext == "cxx"@ || ext == "hpp"@ {
        Some("cpp"@)
    } else if ext == "java"@ {
        Some("java"@)
    } else if ext == "rb"@ {
        Some("ruby"@)
    } else if ext == "sh"@ || ext == "bash"@ || ext == "zsh"@ {
        Some("shell"@)
    } else if ext == "nix"@ {
        Some("nix"@)
    } else if ext == "toml"@ {
        Some("toml"@)
    } else if ext == "yaml"@ || ext == "yml"@ {
        Some("yaml"@)
    } else if ext == "json"@ {
        Some("json"@)
    } else if ext == "xml"@ || ext == "html"@ || ext == "htm"@ {
        Some("xml"@)
    } else if ext == "css"@ || ext == "scss"@ || ext == "sass"@ {
        Some("css"@)
    } else if ext == "md"@ || ext == "markdown"@ {
        Some("markdown"@)
    } else if ext == "lua"@ {
        Some("lua"@)
    } else if ext == "sql"@ {
        Some("sql"@)
    } else if ext == "dockerfile"@ {
        Some("dockerfile"@)
    } else {
        None
    }
}

/// The language of a path: from its extension, matched case-insensitively;
/// an unknown extension is its own name, and no extension is "text".
pub open spec fn language_of(path: Seq<char>) -> Seq<char> {
    match extension_of(path) {
        None => "text"@,
        Some(ext) => match known_language(lowercase(ext)) {
            Some(l) => l,
            None => ext,
        },
    }
}

fn language_for(ext: &Vec<char>) -> (r: Option<&'static str>)
    ensures
        match r {
            Some(l) => known_language(ext@) == Some(l@),
            None => known_language(ext@) is None,
        },
{
    if chars_equal(ext, "rs") {
        Some("rust")
    } else if chars_equal(ext, "py") {
        Some("python")
    } else if chars_equal(ext, "js") || chars_equal(ext, "mjs") || chars_equal(ext, "cjs") {
        Some("javascript")
    } else if chars_equal(ext, "ts") || chars_equal(ext, "mts") || chars_equal(ext, "cts") {
        Some("typescript")
    } else if chars_equal(ext, "tsx") || chars_equal(ext, "jsx") {
        Some("react")
    } else if chars_equal(ext, "go") {
        Some("go")
    } else if chars_equal(ext, "c") || chars_equal(ext, "h") {
        Some("c")
    } else if chars_equal(ext, "cpp") || chars_equal(ext, "cc") || chars_equal(ext, "cxx")
        || chars_equal(ext, "hpp") {
        Some("cpp")
    } else if chars_equal(ext, "java") {
        Some("java")
    } else if chars_equal(ext, "rb") {
        Some("ruby")
    } else if chars_equal(ext, "sh") || chars_equal(ext, "bash") || chars_equal(ext, "zsh") {
        Some("shell")
    } else if chars_equal(ext, "nix") {
        Some("nix")
    } else if chars_equal(ext, "toml") {
        Some("toml")
    } else if chars_equal(ext, "yaml") || chars_equal(ext, "yml") {
        Some("yaml")
    } else if chars_equal(ext, "json") {
        Some("json")
    } else if chars_equal(ext, "xml") || chars_equal(ext, "html") || chars_equal(ext, "htm") {
        Some("xml")
    } else if chars_equal(ext, "css") || chars_equal(ext, "scss") || chars_equal(ext, "sass") {
        Some("css")
    } else if chars_equal(ext, "md") || chars_equal(ext, "markdown") {
        Some("markdown")
    } else if chars_equal(ext, "lua") {
        Some("lua")
    } else if chars_equal(ext, "sql") {
        Some("sql")
    } else if chars_equal(ext, "dockerfile") {
        Some("dockerfile")
    } else {
        None
    }
}

/// Detect the programming language of a file from its extension.
pub fn detect_language(path: &str) -> (r: String)
    ensures
        r@ == language_of(path@),
{
    match path_extension(path) {
        None => owned("text"),
        Some(ext) => {
            let lower = to_lower(ext.as_str());
            let lv = chars_of(lower.as_str());
            match language_for(&lv) {
                Some(l) => owned(l),
                None => ext,
            }
        },
    }
}

/// Lower-cased extensions of files that are text whatever their content.
pub open spec fn is_text_extension(ext: Seq<char>) -> bool {
    ext == "txt"@
        || ext == "md"@
        || ext == "rs"@
        || ext == "py"@
        || ext == "js"@
        || ext == "ts"@
        || ext == "tsx"@
        || ext == "jsx"@
        || ext == "go"@
        || ext == "c"@
        || ext == "h"@
        || ext == "cpp"@
        || ext == "cc"@
        || ext == "hpp"@
        || ext == "java"@
        || ext == "rb"@
        || ext == "sh"@
        || ext == "bash"@
        || ext == "zsh"@
        || ext == "nix"@
        || ext == "toml"@
        || ext == "yaml"@
        || ext == "yml"@
        || ext == "json"@
        || ext == "xml"@
        || ext == "html"@
        || ext == "htm"@
        || ext == "css"@
        || ext == "scss"@
        || ext == "sass"@
        || ext == "lua"@
        || ext == "sql"@
        || ext == "dockerfile"@
        || ext == "makefile"@
        || ext == "cmake"@
        || ext == "conf"@
        || ext == "cfg"@
        || ext == "ini"@
        || ext == "env"@
        || ext == "log"@
        || ext == "csv"@
        || ext == "lock"@
        || ext == "gitignore"@
        || ext == "gitattributes"@
        || ext == "editorconfig"@
        || ext == "flake"@
        || ext == "service"@
        || ext == "timer"@
        || ext == "socket"@
        || ext == "mount"@
}

/// Lower-cased extensions of image files.
pub open spec fn is_image_extension(ext: Seq<char>) -> bool {
    ext == "png"@
        || ext == "jpg"@
        || ext == "jpeg"@
        || ext == "gif"@
        || ext == "webp"@
        || ext == "bmp"@
        || ext == "ico"@
        || ext == "tiff"@
}

fn text_extension(ext: &Vec<char>) -> (r: bool)
    ensures
        r == is_text_extension(ext@),
{
    chars_equal(ext, "txt")
        || chars_equal(ext, "md")
        || chars_equal(ext, "rs")
        || chars_equal(ext, "py")
        || chars_equal(ext, "js")
        || chars_equal(ext, "ts")
        || chars_equal(ext, "tsx")
        || chars_equal(ext, "jsx")
        || chars_equal(ext, "go")
        || chars_equal(ext, "c")
        || chars_equal(ext, "h")
        || chars_equal(ext, "cpp")
        || chars_equal(ext, "cc")
        || chars_equal(ext, "hpp")
        || chars_equal(ext, "java")
        || chars_equal(ext, "rb")
        || chars_equal(ext, "sh")
        || chars_equal(ext, "bash")
        || chars_equal(ext, "zsh")
        || chars_equal(ext, "nix")
        || chars_equal(ext, "toml")
        || chars_equal(ext, "yaml")
        || chars_equal(ext, "yml")
        || chars_equal(ext, "json")
        || chars_equal(ext, "xml")
        || chars_equal(ext, "html")
        || chars_equal(ext, "htm")
        || chars_equal(ext, "css")
        || chars_equal(ext, "scss")
        || chars_equal(ext, "sass")
        || chars_equal(ext, "lua")
        || chars_equal(ext, "sql")
        || chars_equal(ext, "dockerfile")
        || chars_equal(ext, "makefile")
        || chars_equal(ext, "cmake")
        || chars_equal(ext, "conf")
        || chars_equal(ext, "cfg")
        || chars_equal(ext, "ini")
        || chars_equal(ext, "env")
        || chars_equal(ext, "log")
        || chars_equal(ext, "csv")
        || chars_equal(ext, "lock")
        || chars_equal(ext, "gitignore")
        || chars_equal(ext, "gitattributes")
        || chars_equal(ext, "editorconfig")
        || chars_equal(ext, "flake")
        || chars_equal(ext, "service")
        || chars_equal(ext, "timer")
        || chars_equal(ext, "socket")
        || chars_equal(ext, "mount")
}

fn image_extension(ext: &Vec<char>) -> (r: bool)
    ensures
        r == is_image_extension(ext@),
{
    chars_equal(ext, "png")
        || chars_equal(ext, "jpg")
        || chars_equal(ext, "jpeg")
        || chars_equal(ext, "gif")
        || chars_equal(ext, "webp")
        || chars_equal(ext, "bmp")
        || chars_equal(ext, "ico")
        || chars_equal(ext, "tiff")
}

/// An extension in lower case, when the path has one.
pub open spec fn lower_extension(path: Seq<char>) -> Option<Seq<char>> {
    match extension_of(path) {
        Some(ext) => Some(lowercase(ext)),
        None => None,
    }
}

/// The extension of a path in lower case.
fn lower_extension_of(path: &str) -> (r: Option<Vec<char>>)
    ensures
        match r {
            Some(v) => lower_extension(path@) == Some(v@),
            None => lower_extension(path@) is None,
        },
{
    match path_extension(path) {
        Some(ext) => {
            let lower = to_lower(ext.as_str());
            Some(chars_of(lower.as_str()))
        },
        None => None,
    }
}

/// What the caller reads next to finish a preview.
#[derive(Debug)]
pub enum PreviewStep {
    /// The preview is complete.
    Ready(Preview),
    /// List the directory's children, then call `preview_directory`.
    ListDirectory,
    /// Read the file's lines, then call `preview_text`.
    ReadLines,
    /// Read up to `SNIFF_BYTES` leading bytes, then call `after_sniff`.
    SniffContent { size: u64 },
    /// Read the file's mode and modification time, then call
    /// `preview_metadata`.
    ReadMetadata { size: u64 },
}

/// A preview step as plain values.
pub enum StepView {
    Ready(PreviewView),
    ListDirectory,
    ReadLines,
    SniffContent { size: u64 },
    ReadMetadata { size: u64 },
}

impl View for PreviewStep {
    type V = StepView;

    open spec fn view(&self) -> StepView {
        match self {
            PreviewStep::Ready(p) => StepView::Ready(p@),
            PreviewStep::ListDirectory => StepView::ListDirectory,
            PreviewStep::ReadLines => StepView::ReadLines,
            PreviewStep::SniffContent { size } => StepView::SniffContent { size: *size },
            PreviewStep::ReadMetadata { size } => StepView::ReadMetadata { size: *size },
        }
    }
}

/// The image preview of a file with the given lower-cased extension.
pub open spec fn image_view(format: Seq<char>, size: u64) -> PreviewView {
    PreviewView::Image { width: 0, height: 0, format: uppercase(format), size }
}

/// The first step of a preview of `path`, from whether it exists, whether
/// it is a directory and its size (or why the size could not be read):
/// missing paths and unreadable metadata end at once, directories are
/// listed, images are described by extension and size, files up to
/// `MAX_TEXT_SIZE` are read as text when their extension says text and
/// sniffed otherwise, and larger ones get their metadata.
pub open spec fn first_step(path: Seq<char>, exists: bool, is_dir: bool, size: Result<u64, Seq<char>>) -> StepView {
    if !exists {
        StepView::Ready(PreviewView::Empty("File not found"@))
    } else if is_dir {
        StepView::ListDirectory
    } else {
        match size {
            Err(e) => StepView::Ready(PreviewView::Empty("Cannot read: "@ + e)),
            Ok(n) => match lower_extension(path) {
                Some(ext) if is_image_extension(ext) => StepView::Ready(image_view(ext, n)),
                _ => if n <= MAX_TEXT_SIZE {
                    match lower_extension(path) {
                        Some(ext) if is_text_extension(ext) => StepView::ReadLines,
                        _ => StepView::SniffContent { size: n },
                    }
                } else {
                    StepView::ReadMetadata { size: n }
                },
            },
        }
    }
}

/// The size, or the error text, of a metadata read.
pub open spec fn size_view(size: Result<u64, String>) -> Result<u64, Seq<char>> {
    match size {
        Ok(n) => Ok(n),
        Err(e) => Err(e@),
    }
}

/// Start a preview of `path` (see `first_step`).
pub fn generate_preview(path: &str, exists: bool, is_dir: bool, size: Result<u64, String>) -> (r: PreviewStep)
    ensures
        r@ == first_step(path@, exists, is_dir, size_view(size)),
{
    if !exists {
        return PreviewStep::Ready(Preview::Empty(owned("File not found")));
    }
    if is_dir {
        return PreviewStep::ListDirectory;
    }
    let n = match size {
        Ok(n) => n,
        Err(e) => {
            return PreviewStep::Ready(Preview::Empty(concat2("Cannot read: ", e.as_str())));
        },
    };
    let ext = lower_extension_of(path);
    match &ext {
        Some(v) => {
            if image_extension(v) {
                let format = string_of(v);
                return PreviewStep::Ready(preview_image(format.as_str(), n));
            }
        },
        None => {},
    }
    if n <= MAX_TEXT_SIZE {
        let text = match &ext {
            Some(v) => text_extension(v),
            None => false,
        };
        if text {
            PreviewStep::ReadLines
        } else {
            PreviewStep::SniffContent { size: n }
        }
    } else {
        PreviewStep::ReadMetadata { size: n }
    }
}

/// Whether leading bytes look like text: the file could be opened and its
/// head is empty or holds no NUL byte.
pub open spec fn looks_like_text(head: Option<Seq<u8>>) -> bool {
    match head {
        None => false,
        Some(b) => b.len() == 0 || !b.contains(0u8),
    }
}

fn has_nul(b: &Vec<u8>) -> (r: bool)
    ensures
        r == b@.contains(0u8),
{
    let mut i: usize = 0;
    while i < b.len()
        invariant
            i <= b.len(),
            forall|k: int| 0 <= k < i ==> b@[k] != 0u8,
        decreases b.len() - i,
    {
        if b[i] == 0u8 {
            assert(b@[i as int] == 0u8);
            return true;
        }
        i = i + 1;
    }
    false
}

/// Whether the leading bytes of a file (`None` when it could not be
/// opened) look like text.
pub fn head_looks_like_text(head: &Option<Vec<u8>>) -> (r: bool)
    ensures
        r == looks_like_text(match head {
            Some(b) => Some(b@),
            None => None,
        }),
{
    match head {
        None => false,
        Some(b) => b.len() == 0 || !has_nul(b),
    }
}

/// The step after sniffing a file of `size` bytes whose extension did not
/// say text: read it as text when its head looks like text, else show its
/// metadata.
pub fn after_sniff(size: u64, head: &Option<Vec<u8>>) -> (r: PreviewStep)
    ensures
        r@ == if looks_like_text(match head {
            Some(b) => Some(b@),
            None => None,
        }) {
            StepView::ReadLines
        } else {
            StepView::ReadMetadata { size }
        },
{
    if head_looks_like_text(head) {
        PreviewStep::ReadLines
    } else {
        PreviewStep::ReadMetadata { size }
    }
}

/// The preview of an image: its format (the extension in upper case) and
/// size; dimensions are not decoded and are 0.
pub fn preview_image(format: &str, size: u64) -> (r: Preview)
    ensures
        r@ == image_view(format@, size),
{
    Preview::Image { width: 0, height: 0, format: to_upper(format), size }
}

/// The metadata preview of a file: its type (the extension in upper case,
/// "binary" without one), size, permission string and modification time
/// ("unknown" when it could not be read).
pub open spec fn metadata_view(
    path: Seq<char>,
    size: u64,
    mode: Option<u32>,
    is_dir: bool,
    is_symlink: bool,
    modified: Option<i128>,
) -> PreviewView {
    PreviewView::Metadata {
        file_type: match extension_of(path) {
            Some(ext) => uppercase(ext),
            None => "binary"@,
        },
        size,
        permissions: permission_text(mode, is_dir, is_symlink),
        modified: match modified {
            Some(t) => time_text(t),
            None => "unknown"@,
        },
    }
}

/// Metadata preview of a file from its size, mode bits, kind and
/// modification time (each `None` when it could not be read).
pub fn preview_metadata(
    path: &str,
    size: u64,
    mode: Option<u32>,
    is_dir: bool,
    is_symlink: bool,
    modified: Option<i128>,
) -> (r: Preview)
    ensures
        r@ == metadata_view(path@, size, mode, is_dir, is_symlink, modified),
{
    let permissions = format_permissions(mode, is_dir, is_symlink);
    let modified = match modified {
        Some(t) => format_time(t),
        None => owned("unknown"),
    };
    let file_type = match path_extension(path) {
        Some(ext) => to_upper(ext.as_str()),
        None => owned("binary"),
    };
    Preview::Metadata { file_type, size, permissions, modified }
}

/// The lines of a file as read, each `None` where the read failed (as on
/// bytes that are not UTF-8).
pub open spec fn line_views(items: Seq<Option<String>>) -> Seq<Option<Seq<char>>> {
    items.map_values(|o: Option<String>| match o {
        Some(l) => Some(l@),
        None => None,
    })
}

/// Reading lines from position `i` on, with `kept` lines kept and `total`
/// counted so far: every line counts, the first `MAX_PREVIEW_LINES` are
/// kept, and a failed line while still keeping counts and ends the read.
/// Gives the kept lines and the count.
pub open spec fn read_from(
    items: Seq<Option<Seq<char>>>,
    i: int,
    kept: Seq<Seq<char>>,
    total: nat,
) -> (Seq<Seq<char>>, nat)
    decreases items.len() - i,
{
    if i < 0 || i >= items.len() {
        (kept, total)
    } else if kept.len() < MAX_PREVIEW_LINES {
        match items[i] {
            Some(l) => read_from(items, i + 1, kept.push(l), total + 1),
            None => (kept, total + 1),
        }
    } else {
        read_from(items, i + 1, kept, total + 1)
    }
}

/// The text preview of `path` from the lines read (or why the file could
/// not be opened).
pub open spec fn text_view(path: Seq<char>, read: Result<Seq<Option<Seq<char>>>, Seq<char>>) -> PreviewView {
    match read {
        Err(e) => PreviewView::Empty("Cannot open: "@ + e),
        Ok(items) => {
            let (kept, total) = read_from(items, 0, Seq::empty(), 0);
            PreviewView::Text { lines: kept, language: language_of(path), total_lines: total }
        },
    }
}

/// The lines read, or the error text, as plain values.
pub open spec fn read_view(read: Result<Vec<Option<String>>, String>) -> Result<Seq<Option<Seq<char>>>, Seq<char>> {
    match read {
        Ok(items) => Ok(line_views(items@)),
        Err(e) => Err(e@),
    }
}

/// Text preview of `path` from its lines (see `read_from`), with the
/// language its extension names.
pub fn preview_text(path: &str, read: Result<Vec<Option<String>>, String>) -> (r: Preview)
    ensures
        r@ == text_view(path@, read_view(read)),
{
    let items = match read {
        Ok(items) => items,
        Err(e) => {
            return Preview::Empty(concat2("Cannot open: ", e.as_str()));
        },
    };
    let ghost iv = line_views(items@);
    let mut lines: Vec<String> = Vec::new();
    let mut total: usize = 0;
    let mut i: usize = 0;
    assert(texts(lines@) =~= Seq::<Seq<char>>::empty());
    while i < items.len()
        invariant_except_break
            i <= items.len(),
            total <= i,
            iv == line_views(items@),
            read_from(iv, 0, Seq::empty(), 0) == read_from(iv, i as int, texts(lines@), total as nat),
        ensures
            read_from(iv, 0, Seq::empty(), 0) == (texts(lines@), total as nat),
        decreases items.len() - i,
    {
        total = total + 1;
        if lines.len() < MAX_PREVIEW_LINES {
            match &items[i] {
                Some(l) => {
                    let ghost before = texts(lines@);
                    lines.push(l.clone());
                    assert(texts(lines@) =~= before.push(l@));
                },
                None => {
                    break;
                },
            }
        }
        i = i + 1;
    }
    let language = detect_language(path);
    Preview::Text { lines, language, total_lines: total }
}

/// The key a directory preview orders children by: directories first, then
/// by lower-cased name.
pub open spec fn child_key(c: DirChild) -> KeyView {
    (if c.is_dir { 0u8 } else { 1u8 }, lowercase(c.name@), 0, false)
}

/// The keys of a sequence of children under `child_key`.
pub open spec fn child_keys(cs: Seq<DirChild>) -> Seq<KeyView> {
    cs.map_values(|c: DirChild| child_key(c))
}

/// The total size of a sequence of children.
pub open spec fn total_size_of(cs: Seq<DirChild>) -> nat
    decreases cs.len(),
{
    if cs.len() == 0 {
        0
    } else {
        total_size_of(cs.drop_last()) + cs.last().size as nat
    }
}

/// Whether every directory comes before every file.
pub open spec fn dirs_first(cs: Seq<DirChild>) -> bool {
    forall|i: int, j: int| 0 <= i < j < cs.len() && (#[trigger] cs[j]).is_dir ==> (#[trigger] cs[i]).is_dir
}

/// A stable ordering by `child_key` puts directories first.
pub proof fn lemma_child_order_dirs_first(out: Seq<DirChild>, inp: Seq<DirChild>)
    requires
        stably_sorted(out, inp, child_keys(inp)),
    ensures
        dirs_first(out),
{
    let ks = child_keys(inp);
    let perm = choose|perm: Seq<int>| crate::order::arranged_by(perm, out, inp, ks);
    assert forall|i: int, j: int| 0 <= i < j < out.len() && (#[trigger] out[j]).is_dir implies (#[trigger] out[i]).is_dir by {
        assert(crate::order::precedes(ks[perm[i]], perm[i], ks[perm[j]], perm[j]));
        assert(out[i] == inp[perm[i]] && out[j] == inp[perm[j]]);
        assert(ks[perm[i]] == child_key(inp[perm[i]]));
        assert(ks[perm[j]] == child_key(inp[perm[j]]));
    }
}

fn sort_children(children: Vec<DirChild>) -> (out: Vec<DirChild>)
    ensures
        stably_sorted(out@, children@, child_keys(children@)),
{
    let mut keys: Vec<SortKey> = Vec::new();
    let mut i: usize = 0;
    while i < children.len()
        invariant
            i <= children.len(),
            keys.len() == i,
            forall|k: int| 0 <= k < i ==> (#[trigger] keys@[k])@ == child_key(children@[k]),
        decreases children.len() - i,
    {
        let lower = to_lower(children[i].name.as_str());
        let text = chars_of(lower.as_str());
        let rank: u8 = if children[i].is_dir {
            0
        } else {
            1
        };
        keys.push(SortKey { rank, text, num: 0, descending: false });
        i = i + 1;
    }
    assert(key_views(keys@) =~= child_keys(children@));
    sort_by_keys(children, keys)
}

fn sum_sizes(children: &Vec<DirChild>) -> (total: u64)
    requires
        total_size_of(children@) <= u64::MAX,
    ensures
        total == total_size_of(children@),
{
    let mut total: u64 = 0;
    let mut i: usize = 0;
    while i < children.len()
        invariant
            i <= children.len(),
            total == total_size_of(children@.take(i as int)),
            total_size_of(children@) <= u64::MAX,
        decreases children.len() - i,
    {
        proof {
            assert(children@.take(i + 1).drop_last() =~= children@.take(i as int));
            lemma_total_size_prefix(children@, i + 1);
        }
        total = total + children[i].size;
        i = i + 1;
    }
    assert(children@.take(children.len() as int) =~= children@);
    total
}

/// The total of a prefix is at most the total of the whole.
pub proof fn lemma_total_size_prefix(cs: Seq<DirChild>, n: int)
    requires
        0 <= n <= cs.len(),
    ensures
        total_size_of(cs.take(n)) <= total_size_of(cs),
    decreases cs.len() - n,
{
    if n < cs.len() {
        lemma_total_size_prefix(cs, n + 1);
        assert(cs.take(n + 1).drop_last() =~= cs.take(n));
    } else {
        assert(cs.take(n) =~= cs);
    }
}

/// What a directory preview holds, given the children as listed: on a
/// failed listing the reason; else the path, the children stably ordered
/// directories first and then by lower-cased name, and their total size.
pub open spec fn directory_ok(path: Seq<char>, listed: Seq<DirChild>, r: Preview) -> bool {
    match r {
        Preview::Directory { path: p, children, total_size } => {
            &&& p@ == path
            &&& stably_sorted(children@, listed, child_keys(listed))
            &&& total_size == total_size_of(listed)
            &&& dirs_first(children@)
        },
        _ => false,
    }
}

/// Directory preview of `path` from its children as listed (or why it
/// could not be listed).
pub fn preview_directory(path: &str, read: Result<Vec<DirChild>, String>) -> (r: Preview)
    requires
        read is Ok ==> total_size_of(read->Ok_0@) <= u64::MAX,
    ensures
        match read {
            Ok(cs) => directory_ok(path@, cs@, r),
            Err(e) => r@ == PreviewView::Empty("Cannot read directory: "@ + e@),
        },
{
    match read {
        Err(e) => Preview::Empty(concat2("Cannot read directory: ", e.as_str())),
        Ok(children) => {
            let total_size = sum_sizes(&children);
            let ghost listed = children@;
            let children = sort_children(children);
            proof {
                lemma_child_order_dirs_first(children@, listed);
            }
            Preview::Directory { path: owned(path), children, total_size }
        },
    }
}

/// A numbered text line, ` {:>4} | {line}`.
pub open spec fn numbered_line(n: nat, line: Seq<char>) -> Seq<char> {
    " "@ + pad_left(decimal(n), 4) + " | "@ + line
}

/// Text lines numbered from 1.
pub open spec fn numbered(lines: Seq<Seq<char>>) -> Seq<Seq<char>> {
    Seq::new(lines.len(), |i: int| numbered_line((i + 1) as nat, lines[i]))
}

/// How many of the children are directories.
pub open spec fn count_dirs(cs: Seq<ChildView>) -> nat
    decreases cs.len(),
{
    if cs.len() == 0 {
        0
    } else {
        count_dirs(cs.drop_last()) + if cs.last().is_dir {
            1nat
        } else {
            0nat
        }
    }
}

/// A listed child: its name, with `/` after a directory's.
pub open spec fn child_line(c: ChildView) -> Seq<char> {
    if c.is_dir {
        "  "@ + c.name + "/"@
    } else {
        "  "@ + c.name
    }
}

/// The first `MAX_LISTED_CHILDREN` children as listed lines.
pub open spec fn child_lines(cs: Seq<ChildView>) -> Seq<Seq<char>> {
    let n = if cs.len() < MAX_LISTED_CHILDREN {
        cs.len()
    } else {
        MAX_LISTED_CHILDREN as nat
    };
    Seq::new(n, |i: int| child_line(cs[i]))
}

/// The lines a preview is rendered as.
pub open spec fn lines_of(p: PreviewView) -> Seq<Seq<char>> {
    match p {
        PreviewView::Text { lines, language, total_lines } => {
            seq![" ["@ + language + "] "@ + decimal(total_lines) + " lines"@, ""@] + numbered(lines)
                + if lines.len() < total_lines {
                seq!["  ... ("@ + decimal((total_lines - lines.len()) as nat) + " more lines)"@]
            } else {
                Seq::empty()
            }
        },
        PreviewView::Directory { path, children, total_size } => {
            let dirs = count_dirs(children);
            let files = (children.len() - dirs) as nat;
            seq![
                " "@ + decimal(dirs) + " dirs, "@ + decimal(files) + " files ("@ + human_size(total_size) + ")"@,
                ""@,
            ] + child_lines(children) + if children.len() > MAX_LISTED_CHILDREN {
                seq!["  ... ("@ + decimal((children.len() - MAX_LISTED_CHILDREN) as nat) + " more)"@]
            } else {
                Seq::empty()
            }
        },
        PreviewView::Metadata { file_type, size, permissions, modified } => seq![
            " Type: "@ + file_type,
            " Size: "@ + human_size(size),
            " Perm: "@ + permissions,
            " Modified: "@ + modified,
        ],
        PreviewView::Image { width, height, format, size } => seq![
            " Image: "@ + format,
            " Size: "@ + human_size(size),
            ""@,
            " (image preview requires GPU renderer)"@,
        ],
        PreviewView::Empty(msg) => seq![" "@ + msg],
    }
}

fn decimal_text(n: u64) -> (r: String)
    ensures
        r@ == decimal(n as nat),
{
    let mut s = String::new();
    push_decimal(&mut s, n);
    assert(s@ =~= decimal(n as nat));
    s
}

fn push_line(out: &mut Vec<String>, line: String)
    ensures
        texts(final(out)@) == texts(old(out)@).push(line@),
{
    out.push(line);
    assert(texts(out@) =~= texts(old(out)@).push(line@));
}

fn dirs_among(children: &Vec<DirChild>) -> (d: usize)
    ensures
        d == count_dirs(child_views(children@)),
        d <= children.len(),
{
    let ghost cv = child_views(children@);
    let mut d: usize = 0;
    let mut i: usize = 0;
    while i < children.len()
        invariant
            i <= children.len(),
            d <= i,
            cv == child_views(children@),
            d == count_dirs(cv.take(i as int)),
        decreases children.len() - i,
    {
        assert(cv.take(i + 1).drop_last() =~= cv.take(i as int));
        if children[i].is_dir {
            d = d + 1;
        }
        i = i + 1;
    }
    assert(cv.take(children.len() as int) =~= cv);
    d
}

fn text_lines(lines: &Vec<String>, language: &String, total_lines: usize) -> (out: Vec<String>)
    ensures
        texts(out@) == lines_of(
            (PreviewView::Text { lines: texts(lines@), language: language@, total_lines: total_lines as nat }),
        ),
{
    let ghost ls = texts(lines@);
    let mut out: Vec<String> = Vec::new();
    assert(texts(out@) =~= Seq::<Seq<char>>::empty());
    let mut head = concat2(" [", language.as_str());
    head.append("] ");
    let count = decimal_text(total_lines as u64);
    head.append(count.as_str());
    head.append(" lines");
    push_line(&mut out, head);
    push_line(&mut out, owned(""));
    let ghost header = texts(out@);
    let mut i: usize = 0;
    while i < lines.len()
        invariant
            i <= lines.len(),
            ls == texts(lines@),
            texts(out@) == header + Seq::new(i as nat, |k: int| numbered_line((k + 1) as nat, ls[k])),
        decreases lines.len() - i,
    {
        let number = decimal_text((i + 1) as u64);
        let mut line = owned(" ");
        push_padded_left(&mut line, number.as_str(), 4);
        line.append(" | ");
        line.append(lines[i].as_str());
        assert(ls[i as int] == lines@[i as int]@);
        assert(line@ == numbered_line((i + 1) as nat, ls[i as int]));
        push_line(&mut out, line);
        i = i + 1;
        assert(texts(out@) =~= header + Seq::new(i as nat, |k: int| numbered_line((k + 1) as nat, ls[k])));
    }
    assert(Seq::new(lines.len() as nat, |k: int| numbered_line((k + 1) as nat, ls[k])) =~= numbered(ls));
    if lines.len() < total_lines {
        let more = decimal_text((total_lines - lines.len()) as u64);
        let tail = concat3("  ... (", more.as_str(), " more lines)");
        push_line(&mut out, tail);
    }
    assert(texts(out@) =~= lines_of(PreviewView::Text {
        lines: ls,
        language: language@,
        total_lines: total_lines as nat,
    }));
    out
}

fn directory_lines(path: &String, children: &Vec<DirChild>, total_size: u64) -> (out: Vec<String>)
    ensures
        texts(out@) == lines_of(
            (PreviewView::Directory { path: path@, children: child_views(children@), total_size }),
        ),
{
    let ghost cv = child_views(children@);
    let dirs = dirs_among(children);
    let files = children.len() - dirs;
    let mut out: Vec<String> = Vec::new();
    assert(texts(out@) =~= Seq::<Seq<char>>::empty());
    let mut head = owned(" ");
    let d = decimal_text(dirs as u64);
    head.append(d.as_str());
    head.append(" dirs, ");
    let f = decimal_text(files as u64);
    head.append(f.as_str());
    head.append(" files (");
    let size = format_size(total_size);
    head.append(size.as_str());
    head.append(")");
    push_line(&mut out, head);
    push_line(&mut out, owned(""));
    let ghost header = texts(out@);
    let n = if children.len() < MAX_LISTED_CHILDREN {
        children.len()
    } else {
        MAX_LISTED_CHILDREN
    };
    let mut i: usize = 0;
    while i < n
        invariant
            i <= n,
            n <= children.len(),
            cv == child_views(children@),
            texts(out@) == header + Seq::new(i as nat, |k: int| child_line(cv[k])),
        decreases n - i,
    {
        let mut line = owned("  ");
        line.append(children[i].name.as_str());
        if children[i].is_dir {
            line.append("/");
        }
        assert(line@ == child_line(cv[i as int]));
        push_line(&mut out, line);
        i = i + 1;
        assert(texts(out@) =~= header + Seq::new(i as nat, |k: int| child_line(cv[k])));
    }
    assert(Seq::new(n as nat, |k: int| child_line(cv[k])) =~= child_lines(cv));
    if children.len() > MAX_LISTED_CHILDREN {
        let more = decimal_text((children.len() - MAX_LISTED_CHILDREN) as u64);
        let tail = concat3("  ... (", more.as_str(), " more)");
        push_line(&mut out, tail);
    }
    assert(texts(out@) =~= lines_of(PreviewView::Directory { path: path@, children: cv, total_size }));
    out
}

/// Format a preview into lines of text for rendering.
pub fn preview_to_lines(preview: &Preview) -> (out: Vec<String>)
    ensures
        texts(out@) == lines_of(preview@),
{
    match preview {
        Preview::Text { lines, language, total_lines } => text_lines(lines, language, *total_lines),
        Preview::Directory { path, children, total_size } => directory_lines(path, children, *total_size),
        Preview::Metadata { file_type, size, permissions, modified } => {
            let mut out: Vec<String> = Vec::new();
            assert(texts(out@) =~= Seq::<Seq<char>>::empty());
            push_line(&mut out, concat2(" Type: ", file_type.as_str()));
            let s = format_size(*size);
            push_line(&mut out, concat2(" Size: ", s.as_str()));
            push_line(&mut out, concat2(" Perm: ", permissions.as_str()));
            push_line(&mut out, concat2(" Modified: ", modified.as_str()));
            assert(texts(out@) =~= lines_of(preview@));
            out
        },
        Preview::Image { format, size, .. } => {
            let mut out: Vec<String> = Vec::new();
            assert(texts(out@) =~= Seq::<Seq<char>>::empty());
            push_line(&mut out, concat2(" Image: ", format.as_str()));
            let s = format_size(*size);
            push_line(&mut out, concat2(" Size: ", s.as_str()));
            push_line(&mut out, owned(""));
            push_line(&mut out, owned(" (image preview requires GPU renderer)"));
            assert(texts(out@) =~= lines_of(preview@));
            out
        },
        Preview::Empty(msg) => {
            let mut out: Vec<String> = Vec::new();
            assert(texts(out@) =~= Seq::<Seq<char>>::empty());
            push_line(&mut out, concat2(" ", msg.as_str()));
            assert(texts(out@) =~= lines_of(preview@));
            out
        },
    }
}

proof fn lemma_read_from_bounds(items: Seq<Option<Seq<char>>>, i: int, kept: Seq<Seq<char>>, total: nat)
    requires
        0 <= i <= items.len(),
        kept.len() <= MAX_PREVIEW_LINES,
        kept.len() <= total,
    ensures
        read_from(items, i, kept, total).0.len() <= MAX_PREVIEW_LINES,
        read_from(items, i, kept, total).0.len() <= read_from(items, i, kept, total).1,
        total <= read_from(items, i, kept, total).1 <= total + items.len() - i,
    decreases items.len() - i,
{
    if i < items.len() {
        if kept.len() < MAX_PREVIEW_LINES {
            match items[i] {
                Some(l) => lemma_read_from_bounds(items, i + 1, kept.push(l), total + 1),
                None => {},
            }
        } else {
            lemma_read_from_bounds(items, i + 1, kept, total + 1);
        }
    }
}

/// A text preview keeps at most `MAX_PREVIEW_LINES` lines, never more than
/// it counts, and counts no more lines than were read.
pub proof fn law_text_preview_bounds(items: Seq<Option<Seq<char>>>)
    ensures
        read_from(items, 0, Seq::empty(), 0).0.len() <= MAX_PREVIEW_LINES,
        read_from(items, 0, Seq::empty(), 0).0.len() <= read_from(items, 0, Seq::empty(), 0).1 <= items.len(),
{
    lemma_read_from_bounds(items, 0, Seq::empty(), 0);
}

/// Every line of a file that reads cleanly and has at most
/// `MAX_PREVIEW_LINES` lines is kept, in order, and counted.
pub proof fn law_short_text_kept_whole(items: Seq<Option<Seq<char>>>)
    requires
        items.len() <= MAX_PREVIEW_LINES,
        forall|i: int| 0 <= i < items.len() ==> (#[trigger] items[i]) is Some,
    ensures
        read_from(items, 0, Seq::empty(), 0).1 == items.len(),
        read_from(items, 0, Seq::empty(), 0).0 == items.map_values(|o: Option<Seq<char>>| o->0),
{
    assert(items.take(0).map_values(|o: Option<Seq<char>>| o->0) =~= Seq::<Seq<char>>::empty());
    lemma_read_whole(items, 0, Seq::empty());
}

proof fn lemma_read_whole(items: Seq<Option<Seq<char>>>, i: int, kept: Seq<Seq<char>>)
    requires
        0 <= i <= items.len(),
        items.len() <= MAX_PREVIEW_LINES,
        forall|k: int| 0 <= k < items.len() ==> (#[trigger] items[k]) is Some,
        kept == items.take(i).map_values(|o: Option<Seq<char>>| o->0),
    ensures
        read_from(items, i, kept, i as nat).1 == items.len(),
        read_from(items, i, kept, i as nat).0 == items.map_values(|o: Option<Seq<char>>| o->0),
    decreases items.len() - i,
{
    if i < items.len() {
        let next = kept.push(items[i]->0);
        assert(next =~= items.take(i + 1).map_values(|o: Option<Seq<char>>| o->0));
        lemma_read_whole(items, i + 1, next);
    } else {
        assert(items.take(i) =~= items);
    }
}

/// An existing file whose lower-cased extension names an image format (png,
/// jpg, jpeg, gif, webp, bmp, ico, tiff) is previewed at once as an image:
/// the format is the upper-cased extension and the size is the file's,
/// whatever its size.
pub proof fn law_image_files_preview_as_images(path: Seq<char>, ext: Seq<char>, size: u64)
    requires
        lower_extension(path) == Some(ext),
        ext == "png"@ || ext == "jpg"@ || ext == "jpeg"@ || ext == "gif"@ || ext == "webp"@ || ext == "bmp"@
            || ext == "ico"@ || ext == "tiff"@,
    ensures
        first_step(path, true, false, Ok(size)) == StepView::Ready(
            PreviewView::Image { width: 0, height: 0, format: uppercase(ext), size },
        ),
{
}

/// A small existing file with a common source or text extension is read as
/// text lines.
pub proof fn law_small_text_files_are_read(path: Seq<char>, ext: Seq<char>, size: u64)
    requires
        lower_extension(path) == Some(ext),
        ext == "txt"@ || ext == "md"@ || ext == "rs"@ || ext == "py"@ || ext == "js"@,
        size <= MAX_TEXT_SIZE,
    ensures
        first_step(path, true, false, Ok(size)) == StepView::ReadLines,
{
    reveal_strlit("png");
    reveal_strlit("jpg");
    reveal_strlit("jpeg");
    reveal_strlit("gif");
    reveal_strlit("webp");
    reveal_strlit("bmp");
    reveal_strlit("ico");
    reveal_strlit("tiff");
    reveal_strlit("txt");
    reveal_strlit("md");
    reveal_strlit("rs");
    reveal_strlit("py");
    reveal_strlit("js");
    assert(!is_image_extension(ext)) by {
        assert(ext.len() == 2 || ext.len() == 3);
        assert(ext.len() == 3 ==> ext[0] == 't' || ext[0] == 'p' || ext[0] == 'r' || ext[0] == 'j' || ext[0] == 'm');
    }
    assert(is_text_extension(ext));
}

} // verus!
