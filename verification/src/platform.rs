//! Directory entries and file information as plain values.
//!
//! Timestamps are nanoseconds relative to the Unix epoch (negative before
//! it), which orders them exactly as `SystemTime` orders.

use vstd::prelude::*;

verus! {

/// A single entry in a directory listing.
#[derive(Debug)]
pub struct FileEntry {
    /// File or directory name.
    pub name: String,
    /// Full path.
    pub path: String,
    /// Whether this is a directory.
    pub is_dir: bool,
    /// Size in bytes.
    pub size: u64,
    /// Last modification time (nanoseconds since the Unix epoch).
    pub modified: i128,
}

impl Clone for FileEntry {
    fn clone(&self) -> (r: Self)
        ensures
            r == *self,
    {
        FileEntry {
            name: self.name.clone(),
            path: self.path.clone(),
            is_dir: self.is_dir,
            size: self.size,
            modified: self.modified,
        }
    }
}

/// Detailed file information.
#[derive(Debug)]
pub struct FileInfo {
    /// File name.
    pub name: String,
    /// Full path.
    pub path: String,
    /// Size in bytes.
    pub size: u64,
    /// Permissions string (e.g. "rwxr-xr-x").
    pub permissions: String,
    /// Creation time (nanoseconds since the Unix epoch).
    pub created: i128,
    /// Last modification time (nanoseconds since the Unix epoch).
    pub modified: i128,
}

} // verus!
