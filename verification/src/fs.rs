//! Filesystem errors and the listing that a directory read produces.

use vstd::prelude::*;
use crate::order::{SortKey, KeyView, key_views, sort_by_keys, stably_sorted};
use crate::platform::FileEntry;
use crate::path::{joined, parent_of, path_join, path_parent};
use crate::text::{begins_with, chars_of, concat2, lowercase, starts_with_char, to_lower};

verus! {

#[verifier::external_type_specification]
#[verifier::external_body]
pub struct ExIoError(std::io::Error);

/// Errors from filesystem operations.
#[derive(Debug)]
pub enum FsError {
    Io(std::io::Error),
    NotFound(String),
    AlreadyExists(String),
    Platform(String),
}

/// The key a platform listing is ordered by: the lower-cased name.
pub open spec fn name_key(e: FileEntry) -> KeyView {
    (0u8, lowercase(e.name@), 0, false)
}

/// The keys of a sequence of entries under `name_key`.
pub open spec fn name_keys(es: Seq<FileEntry>) -> Seq<KeyView> {
    es.map_values(|e: FileEntry| name_key(e))
}

/// Entries whose names do not start with `.`.
pub open spec fn visible(es: Seq<FileEntry>) -> Seq<FileEntry> {
    es.filter(|e: FileEntry| !starts_with_char(e.name@, '.'))
}

/// What `list_directory` returns for a directory read: on success the entries
/// ordered by lower-cased name (stable), without hidden ones unless
/// `show_hidden`; a failed read is passed on unchanged.
pub open spec fn listing_ok(out: Seq<FileEntry>, read: Seq<FileEntry>, show_hidden: bool) -> bool {
    exists|sorted: Seq<FileEntry>|
        stably_sorted(sorted, read, name_keys(read)) && out == if show_hidden {
            sorted
        } else {
            visible(sorted)
        }
}

/// Entries ordered by lower-cased name, ties keeping their order.
pub fn sort_by_name(entries: Vec<FileEntry>) -> (out: Vec<FileEntry>)
    ensures
        stably_sorted(out@, entries@, name_keys(entries@)),
{
    let mut keys: Vec<SortKey> = Vec::new();
    let mut i: usize = 0;
    while i < entries.len()
        invariant
            i <= entries.len(),
            keys.len() == i,
            forall|k: int| 0 <= k < i ==> (#[trigger] keys@[k])@ == name_key(entries@[k]),
        decreases entries.len() - i,
    {
        let lower = to_lower(entries[i].name.as_str());
        let text = chars_of(lower.as_str());
        keys.push(SortKey { rank: 0, text, num: 0, descending: false });
        i = i + 1;
    }
    assert(key_views(keys@) =~= name_keys(entries@));
    sort_by_keys(entries, keys)
}

/// Drop entries whose names start with `.`.
pub fn retain_visible(entries: Vec<FileEntry>) -> (out: Vec<FileEntry>)
    ensures
        out@ == visible(entries@),
{
    let mut out: Vec<FileEntry> = Vec::new();
    let mut i: usize = 0;
    while i < entries.len()
        invariant
            i <= entries.len(),
            out@ == visible(entries@.take(i as int)),
        decreases entries.len() - i,
    {
        proof {
            assert(entries@.take(i + 1).drop_last() =~= entries@.take(i as int));
            reveal_with_fuel(Seq::filter, 1);
        }
        if !begins_with(entries[i].name.as_str(), '.') {
            out.push(entries[i].clone());
        }
        i = i + 1;
    }
    assert(entries@.take(entries.len() as int) =~= entries@);
    out
}

/// The listing of a directory from what was read of it: on success the
/// entries ordered by lower-cased name, with hidden (dot) entries dropped
/// unless `show_hidden`; a failed read (`NotFound`, `Platform`) is returned
/// as it came.
pub fn list_directory(read: Result<Vec<FileEntry>, FsError>, show_hidden: bool) -> (r: Result<
    Vec<FileEntry>,
    FsError,
>)
    ensures
        match read {
            Ok(es) => r is Ok && listing_ok(r->Ok_0@, es@, show_hidden),
            Err(e) => r == Err::<Vec<FileEntry>, FsError>(e),
        },
{
    match read {
        Ok(entries) => {
            let sorted = sort_by_name(entries);
            let out = if show_hidden {
                sorted
            } else {
                retain_visible(sorted)
            };
            Ok(out)
        },
        Err(e) => Err(e),
    }
}

/// `io::Error`'s `Display` text.
#[verifier::external_body]
fn io_error_text(e: &std::io::Error) -> (r: String) {
    e.to_string()
}

impl FsError {
    /// The message of the error as it is shown to the user: `io: ...`,
    /// `not found: {path}`, `already exists: {path}` or `platform: {msg}`.
    pub fn describe(&self) -> (r: String)
        ensures
            match self {
                FsError::Io(_) => r@.len() >= 4 && r@.take(4) == "io: "@,
                FsError::NotFound(p) => r@ == "not found: "@ + p@,
                FsError::AlreadyExists(p) => r@ == "already exists: "@ + p@,
                FsError::Platform(m) => r@ == "platform: "@ + m@,
            },
    {
        match self {
            FsError::Io(e) => {
                let text = io_error_text(e);
                let r = concat2("io: ", text.as_str());
                proof {
                    reveal_strlit("io: ");
                    assert(r@.take(4) =~= "io: "@);
                }
                r
            },
            FsError::NotFound(p) => concat2("not found: ", p.as_str()),
            FsError::AlreadyExists(p) => concat2("already exists: ", p.as_str()),
            FsError::Platform(m) => concat2("platform: ", m.as_str()),
        }
    }
}

/// The path a rename gives: `new_name` in the directory of `path` (the
/// root when it has none).
pub open spec fn rename_target(path: Seq<char>, new_name: Seq<char>) -> Seq<char> {
    match parent_of(path) {
        Some(dir) => joined(dir, new_name),
        None => joined("/"@, new_name),
    }
}

/// Where renaming `path` to `new_name` puts it.
pub fn renamed_path(path: &str, new_name: &str) -> (r: String)
    ensures
        r@ == rename_target(path@, new_name@),
{
    match path_parent(path) {
        Some(dir) => path_join(dir.as_str(), new_name),
        None => path_join("/", new_name),
    }
}

/// The outcome of moving `path` to the trash, from whether it exists and
/// what the platform's trash operation reported (its error text): a missing
/// path is `NotFound`, a platform failure is `Platform`.
pub fn trash_entry(path: &str, exists: bool, trashed: Result<(), String>) -> (r: Result<(), FsError>)
    ensures
        !exists ==> (r matches Err(FsError::NotFound(p)) && p@ == path@),
        exists ==> match trashed {
            Ok(()) => r is Ok,
            Err(m) => (r matches Err(FsError::Platform(q)) && q@ == m@),
        },
{
    if !exists {
        return Err(FsError::NotFound(crate::text::owned(path)));
    }
    match trashed {
        Ok(()) => Ok(()),
        Err(m) => Err(FsError::Platform(m)),
    }
}

/// Whether a copy or move from `src` to `dst` may go ahead: the source
/// must exist (`NotFound`) and the destination must not (`AlreadyExists`).
pub fn transfer_check(src: &str, dst: &str, src_exists: bool, dst_exists: bool) -> (r: Result<(), FsError>)
    ensures
        !src_exists ==> (r matches Err(FsError::NotFound(p)) && p@ == src@),
        src_exists && dst_exists ==> (r matches Err(FsError::AlreadyExists(p)) && p@ == dst@),
        src_exists && !dst_exists ==> r is Ok,
{
    if !src_exists {
        return Err(FsError::NotFound(crate::text::owned(src)));
    }
    if dst_exists {
        return Err(FsError::AlreadyExists(crate::text::owned(dst)));
    }
    Ok(())
}

/// Whether a new file or directory may be created at `path`: not when
/// something is there already (`AlreadyExists`).
pub fn creation_check(path: &str, exists: bool) -> (r: Result<(), FsError>)
    ensures
        exists ==> (r matches Err(FsError::AlreadyExists(p)) && p@ == path@),
        !exists ==> r is Ok,
{
    if exists {
        Err(FsError::AlreadyExists(crate::text::owned(path)))
    } else {
        Ok(())
    }
}

} // verus!
