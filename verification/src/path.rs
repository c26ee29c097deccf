//! Path operations on UTF-8 path strings, delegated to `std::path`.

use vstd::prelude::*;

verus! {

/// Whether two path strings name the same path component by component, as
/// `Path`'s `==` decides (so `"/a/b/"` and `"/a/b"` are the same path).
pub uninterp spec fn same_path(a: Seq<char>, b: Seq<char>) -> bool;

/// Two path strings name the same place: they are equal, or `Path`'s
/// `==` holds of them.
pub open spec fn same_place(a: Seq<char>, b: Seq<char>) -> bool {
    a == b || same_path(a, b)
}

/// `Path::parent` of a path string.
pub uninterp spec fn parent_of(p: Seq<char>) -> Option<Seq<char>>;

/// `Path::file_name` of a path string.
pub uninterp spec fn file_name_of(p: Seq<char>) -> Option<Seq<char>>;

/// `Path::extension` of a path string.
pub uninterp spec fn extension_of(p: Seq<char>) -> Option<Seq<char>>;

/// `Path::join`: `rest` appended to `base` as a further path component
/// (or `rest` itself when it is absolute).
pub uninterp spec fn joined(base: Seq<char>, rest: Seq<char>) -> Seq<char>;

/// `==` on `std::path::Path`. The result is named `same_path`; equal strings
/// always name the same path.
#[verifier::external_body]
pub(crate) fn paths_equal(a: &str, b: &str) -> (r: bool)
    ensures
        r == same_path(a@, b@),
        a@ == b@ ==> r,
{
    std::path::Path::new(a) == std::path::Path::new(b)
}

/// `Path::parent`, returned as an owned string.
#[verifier::external_body]
pub(crate) fn path_parent(p: &str) -> (r: Option<String>)
    ensures
        match r {
            Some(s) => parent_of(p@) == Some(s@),
            None => parent_of(p@) is None,
        },
{
    match std::path::Path::new(p).parent() {
        Some(q) => Some(q.to_string_lossy().into_owned()),
        None => None,
    }
}

/// `Path::file_name`, returned as an owned string.
#[verifier::external_body]
pub(crate) fn path_file_name(p: &str) -> (r: Option<String>)
    ensures
        match r {
            Some(s) => file_name_of(p@) == Some(s@),
            None => file_name_of(p@) is None,
        },
{
    match std::path::Path::new(p).file_name() {
        Some(q) => Some(q.to_string_lossy().into_owned()),
        None => None,
    }
}

/// `Path::extension`, returned as an owned string.
#[verifier::external_body]
pub(crate) fn path_extension(p: &str) -> (r: Option<String>)
    ensures
        match r {
            Some(s) => extension_of(p@) == Some(s@),
            None => extension_of(p@) is None,
        },
{
    match std::path::Path::new(p).extension() {
        Some(q) => Some(q.to_string_lossy().into_owned()),
        None => None,
    }
}

/// `Path::join`, returned as an owned string.
#[verifier::external_body]
pub(crate) fn path_join(base: &str, rest: &str) -> (r: String)
    ensures
        r@ == joined(base@, rest@),
{
    std::path::Path::new(base).join(rest).to_string_lossy().into_owned()
}

/// The final component of a path, or `"/"` when it has none (the root);
/// this is how tabs and pane titles are named.
pub open spec fn display_name(p: Seq<char>) -> Seq<char> {
    match file_name_of(p) {
        Some(n) => n,
        None => seq!['/'],
    }
}

/// Final component of a path, or `"/"` when there is none.
pub fn display_name_of(p: &str) -> (r: String)
    ensures
        r@ == display_name(p@),
{
    match path_file_name(p) {
        Some(n) => n,
        None => {
            let mut s = String::new();
            crate::text::push_char(&mut s, '/');
            s
        },
    }
}

} // verus!
