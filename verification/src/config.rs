//! Configuration sections that hold no floating-point settings: navigation,
//! search indexing, preview, and the background daemon.

use vstd::prelude::*;
use crate::places::home_dir;
use crate::text::owned;

verus! {

/// Navigation settings.
#[derive(Debug)]
pub struct NavigationConfig {
    /// Default directory to open.
    pub default_path: String,
    /// Bookmarked directories.
    pub bookmarks: Vec<String>,
    /// Show sidebar with bookmarks.
    pub show_sidebar: bool,
}

/// The directory a default setting starts from: the user's home directory
/// when there is one, else `/`.
pub open spec fn home_or_root(home: Option<Seq<char>>) -> Seq<char> {
    match home {
        Some(h) => h,
        None => "/"@,
    }
}

/// The home directory as a plain value.
pub open spec fn home_view(home: Option<String>) -> Option<Seq<char>> {
    match home {
        Some(h) => Some(h@),
        None => None,
    }
}

/// The given home directory, or `/` when there is none.
fn path_or_root(home: Option<String>) -> (p: String)
    ensures
        p@ == home_or_root(home_view(home)),
{
    match home {
        Some(h) => h,
        None => owned("/"),
    }
}

impl NavigationConfig {
    /// The default navigation settings for a user whose home directory is
    /// `home` (none when the environment gives none).
    pub fn with_home(home: Option<String>) -> (c: Self)
        ensures
            c.default_path@ == home_or_root(home_view(home)),
            c.bookmarks@.len() == 3,
            c.bookmarks@[0]@ == "~/Documents"@,
            c.bookmarks@[1]@ == "~/Downloads"@,
            c.bookmarks@[2]@ == "~/Desktop"@,
            c.show_sidebar,
    {
        let mut bookmarks: Vec<String> = Vec::new();
        bookmarks.push(owned("~/Documents"));
        bookmarks.push(owned("~/Downloads"));
        bookmarks.push(owned("~/Desktop"));
        NavigationConfig { default_path: path_or_root(home), bookmarks, show_sidebar: true }
    }
}

impl Default for NavigationConfig {
    /// The settings for the home directory that the environment gives now.
    fn default() -> (c: Self)
        ensures
            c.bookmarks@.len() == 3,
            c.bookmarks@[0]@ == "~/Documents"@,
            c.bookmarks@[1]@ == "~/Downloads"@,
            c.bookmarks@[2]@ == "~/Desktop"@,
            c.show_sidebar,
    {
        NavigationConfig::with_home(home_dir())
    }
}

/// Search / indexing configuration.
#[derive(Debug)]
pub struct SearchConfig {
    /// Directories to index for fast search.
    pub index_dirs: Vec<String>,
    /// Glob patterns to exclude from indexing.
    pub exclude_patterns: Vec<String>,
}

impl SearchConfig {
    /// The default search settings for a user whose home directory is
    /// `home` (none when the environment gives none).
    pub fn with_home(home: Option<String>) -> (c: Self)
        ensures
            c.index_dirs@.len() == 1,
            c.index_dirs@[0]@ == home_or_root(home_view(home)),
            c.exclude_patterns@.len() == 3,
            c.exclude_patterns@[0]@ == "*.DS_Store"@,
            c.exclude_patterns@[1]@ == "node_modules"@,
            c.exclude_patterns@[2]@ == ".git"@,
    {
        let mut index_dirs: Vec<String> = Vec::new();
        index_dirs.push(path_or_root(home));
        let mut exclude_patterns: Vec<String> = Vec::new();
        exclude_patterns.push(owned("*.DS_Store"));
        exclude_patterns.push(owned("node_modules"));
        exclude_patterns.push(owned(".git"));
        SearchConfig { index_dirs, exclude_patterns }
    }
}

impl Default for SearchConfig {
    /// The settings for the home directory that the environment gives now.
    fn default() -> (c: Self)
        ensures
            c.index_dirs@.len() == 1,
            c.exclude_patterns@.len() == 3,
            c.exclude_patterns@[0]@ == "*.DS_Store"@,
            c.exclude_patterns@[1]@ == "node_modules"@,
            c.exclude_patterns@[2]@ == ".git"@,
    {
        SearchConfig::with_home(home_dir())
    }
}

/// File preview settings.
#[derive(Debug)]
pub struct PreviewConfig {
    /// Enable file preview panel.
    pub enabled: bool,
    /// Maximum file size for preview (MB).
    pub max_file_size_mb: u32,
    /// Enable syntax highlighting in preview.
    pub syntax_highlighting: bool,
}

impl Default for PreviewConfig {
    fn default() -> (c: Self)
        ensures
            c.enabled,
            c.max_file_size_mb == 10,
            c.syntax_highlighting,
    {
        PreviewConfig { enabled: true, max_file_size_mb: 10, syntax_highlighting: true }
    }
}

/// Daemon mode configuration.
#[derive(Debug)]
pub struct DaemonConfig {
    /// Enable background file watching daemon.
    pub enable: bool,
    /// Directories to watch for changes.
    pub watch_dirs: Vec<String>,
    /// Interval in seconds between index refreshes.
    pub index_interval_secs: u64,
}

impl DaemonConfig {
    /// The default daemon settings for a user whose home directory is
    /// `home` (none when the environment gives none).
    pub fn with_home(home: Option<String>) -> (c: Self)
        ensures
            !c.enable,
            c.watch_dirs@.len() == 1,
            c.watch_dirs@[0]@ == home_or_root(home_view(home)),
            c.index_interval_secs == 300,
    {
        let mut watch_dirs: Vec<String> = Vec::new();
        watch_dirs.push(path_or_root(home));
        DaemonConfig { enable: false, watch_dirs, index_interval_secs: 300 }
    }
}

impl Default for DaemonConfig {
    /// The settings for the home directory that the environment gives now.
    fn default() -> (c: Self)
        ensures
            !c.enable,
            c.watch_dirs@.len() == 1,
            c.index_interval_secs == 300,
    {
        DaemonConfig::with_home(home_dir())
    }
}

} // verus!
