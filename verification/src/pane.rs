//! Pane state: cursor position, selection, sorting, and directory listing.
//!
//! Each pane is a view into a single directory. Reading a directory is the
//! caller's work: a pane is handed what was read (`refresh`), and the
//! operations that move to another directory (`enter`, `go_parent`,
//! `navigate_to`) or change what is listed (`toggle_hidden`, `set_filter`)
//! leave the new listing to be handed in by the next `refresh`.

use vstd::prelude::*;
use std::collections::HashSet;
use crate::fs::{FsError, list_directory, listing_ok};
use crate::order::{SortKey, KeyView, key_order, key_views, sort_by_keys, stably_sorted};
use crate::path::{extension_of, parent_of, path_extension, path_parent};
use crate::platform::FileEntry;
use crate::text::{chars_of, contains_chars, contains_seq, lex_order, lowercase, occurs_at, push_char, to_lower};

verus! {

broadcast use vstd::std_specs::hash::group_hash_axioms;

/// Sort field for directory listings.
#[derive(Debug, Clone, Copy, PartialEq, Eq, Structural)]
pub enum SortField {
    Name,
    Size,
    Modified,
    Extension,
}

/// Sort direction.
#[derive(Debug, Clone, Copy, PartialEq, Eq, Structural)]
pub enum SortDirection {
    Ascending,
    Descending,
}

/// The extension of a file name, or the empty string when it has none.
pub open spec fn extension_or_empty(name: Seq<char>) -> Seq<char> {
    match extension_of(name) {
        Some(x) => x,
        None => Seq::empty(),
    }
}

/// The key an entry is ordered by in a pane: directories first (when
/// `dirs_first`), then the chosen field, in the chosen direction.
pub open spec fn entry_key(e: FileEntry, field: SortField, dir: SortDirection, dirs_first: bool) -> KeyView {
    let rank: u8 = if dirs_first && !e.is_dir {
        1
    } else {
        0
    };
    let desc = dir == SortDirection::Descending;
    match field {
        SortField::Name => (rank, lowercase(e.name@), 0, desc),
        SortField::Size => (rank, Seq::empty(), e.size as int, desc),
        SortField::Modified => (rank, Seq::empty(), e.modified as int, desc),
        SortField::Extension => (rank, extension_or_empty(e.name@), 0, desc),
    }
}

/// The keys of a sequence of entries.
pub open spec fn entry_keys(
    es: Seq<FileEntry>,
    field: SortField,
    dir: SortDirection,
    dirs_first: bool,
) -> Seq<KeyView> {
    es.map_values(|e: FileEntry| entry_key(e, field, dir, dirs_first))
}

/// The entry's lower-cased name contains the lower-cased filter.
pub open spec fn matches_filter(e: FileEntry, filter: Seq<char>) -> bool {
    contains_seq(lowercase(e.name@), lowercase(filter))
}

/// Entries kept by a filter string: all of them when it is empty.
pub open spec fn filtered(es: Seq<FileEntry>, filter: Seq<char>) -> Seq<FileEntry> {
    if filter.len() == 0 {
        es
    } else {
        es.filter(|e: FileEntry| matches_filter(e, filter))
    }
}

/// The entries a pane shows after reading a directory: the listing
/// (empty when the read failed), kept by the filter, in sort order.
pub open spec fn shown_entries(
    out: Seq<FileEntry>,
    read: Result<Vec<FileEntry>, FsError>,
    show_hidden: bool,
    filter: Seq<char>,
    field: SortField,
    dir: SortDirection,
    dirs_first: bool,
) -> bool {
    exists|listed: Seq<FileEntry>|
        {
            &&& match read {
                Ok(es) => listing_ok(listed, es@, show_hidden),
                Err(_) => listed.len() == 0,
            }
            &&& stably_sorted(
                out,
                filtered(listed, filter),
                entry_keys(filtered(listed, filter), field, dir, dirs_first),
            )
        }
}

/// The cursor after clamping to a listing of `len` entries.
pub open spec fn clamped(cursor: int, len: int) -> int {
    if len == 0 {
        0
    } else if cursor >= len {
        len - 1
    } else {
        cursor
    }
}

/// A single pane displaying a directory.
#[derive(Debug)]
pub struct Pane {
    /// Current directory.
    pub path: String,
    /// All entries (sorted, filtered).
    pub entries: Vec<FileEntry>,
    /// Cursor index into `entries`.
    pub cursor: usize,
    /// Selected entry indices.
    pub selected: HashSet<usize>,
    /// Sort field.
    pub sort_field: SortField,
    /// Sort direction.
    pub sort_dir: SortDirection,
    /// Whether to list directories before files.
    pub dirs_first: bool,
    /// Whether to show hidden files.
    pub show_hidden: bool,
    /// Scroll offset for rendering.
    pub scroll_offset: usize,
    /// Filter string for incremental search.
    pub filter: String,
}

/// The mathematical content of a pane.
pub struct PaneView {
    pub path: Seq<char>,
    pub entries: Seq<FileEntry>,
    pub cursor: int,
    pub selected: Set<usize>,
    pub sort_field: SortField,
    pub sort_dir: SortDirection,
    pub dirs_first: bool,
    pub show_hidden: bool,
    pub scroll_offset: int,
    pub filter: Seq<char>,
}

impl View for Pane {
    type V = PaneView;

    open spec fn view(&self) -> PaneView {
        PaneView {
            path: self.path@,
            entries: self.entries@,
            cursor: self.cursor as int,
            selected: self.selected@,
            sort_field: self.sort_field,
            sort_dir: self.sort_dir,
            dirs_first: self.dirs_first,
            show_hidden: self.show_hidden,
            scroll_offset: self.scroll_offset as int,
            filter: self.filter@,
        }
    }
}

/// The cursor after moving down one entry (it stops at the last entry).
pub open spec fn cursor_after_down(p: PaneView) -> int {
    if p.entries.len() > 0 && p.cursor + 1 < p.entries.len() {
        p.cursor + 1
    } else {
        p.cursor
    }
}

/// The cursor after moving up one entry (it stops at the first entry).
pub open spec fn cursor_after_up(p: PaneView) -> int {
    if p.cursor > 0 {
        p.cursor - 1
    } else {
        0
    }
}

/// The cursor after jumping to the last entry.
pub open spec fn cursor_at_bottom(p: PaneView) -> int {
    if p.entries.len() > 0 {
        p.entries.len() - 1
    } else {
        p.cursor
    }
}

/// The selection after toggling the entry under the cursor.
pub open spec fn selection_toggled(p: PaneView) -> Set<usize> {
    if p.entries.len() == 0 {
        p.selected
    } else if p.selected.contains(p.cursor as usize) {
        p.selected.remove(p.cursor as usize)
    } else {
        p.selected.insert(p.cursor as usize)
    }
}

/// A pane moved to another directory: cursor and scroll at the top, filter
/// cleared; the listing is reloaded afterwards.
pub open spec fn moved_to(p: PaneView, path: Seq<char>) -> PaneView {
    PaneView { path, cursor: 0, scroll_offset: 0, filter: Seq::empty(), ..p }
}

/// The pane after a reload that produced `entries`.
pub open spec fn reloaded(p: PaneView, entries: Seq<FileEntry>) -> PaneView {
    PaneView {
        entries,
        cursor: clamped(p.cursor, entries.len() as int),
        selected: Set::empty(),
        ..p
    }
}

/// `entries` is what a pane shows after reading `read` with its settings.
pub open spec fn shows(p: PaneView, entries: Seq<FileEntry>, read: Result<Vec<FileEntry>, FsError>) -> bool {
    shown_entries(entries, read, p.show_hidden, p.filter, p.sort_field, p.sort_dir, p.dirs_first)
}

/// The paths of the entries `selected_entries` returns.
pub open spec fn selected_path_list(p: PaneView) -> Seq<String> {
    selected_view_order(p).map_values(|e: FileEntry| e.path)
}

/// What `selected_entries` returns, in terms of the view.
pub open spec fn selected_view_order(p: PaneView) -> Seq<FileEntry> {
    if p.selected.is_empty() {
        if 0 <= p.cursor < p.entries.len() {
            seq![p.entries[p.cursor]]
        } else {
            Seq::empty()
        }
    } else {
        selected_in_order(p.entries, p.selected, p.entries.len() as int)
    }
}

impl Pane {
    /// The cursor points at an entry, or is 0 when there is none.
    pub open spec fn cursor_in_range(&self) -> bool {
        if self.entries.len() == 0 {
            self.cursor == 0
        } else {
            self.cursor < self.entries.len()
        }
    }

    /// Create a pane at `path`, showing what was read of that directory.
    pub fn new(path: String, show_hidden: bool, read: Result<Vec<FileEntry>, FsError>) -> (pane: Self)
        ensures
            pane@ == reloaded(
                PaneView {
                    path: path@,
                    entries: Seq::empty(),
                    cursor: 0,
                    selected: Set::empty(),
                    sort_field: SortField::Name,
                    sort_dir: SortDirection::Ascending,
                    dirs_first: true,
                    show_hidden,
                    scroll_offset: 0,
                    filter: Seq::empty(),
                },
                pane@.entries,
            ),
            shows(pane@, pane@.entries, read),
            pane.cursor_in_range(),
    {
        let mut pane = Pane {
            path,
            entries: Vec::new(),
            cursor: 0,
            selected: HashSet::new(),
            sort_field: SortField::Name,
            sort_dir: SortDirection::Ascending,
            dirs_first: true,
            show_hidden,
            scroll_offset: 0,
            filter: String::new(),
        };
        pane.refresh(read);
        pane
    }

    /// Reload the listing from what was read of the pane's directory: keep
    /// the entries matching the filter, sort them, clamp the cursor and
    /// clear the selection.
    pub fn refresh(&mut self, read: Result<Vec<FileEntry>, FsError>)
        ensures
            final(self)@ == reloaded(old(self)@, final(self)@.entries),
            shows(old(self)@, final(self)@.entries, read),
            final(self).cursor_in_range(),
    {
        let ghost r = read;
        let listed = match list_directory(read, self.show_hidden) {
            Ok(es) => es,
            Err(_) => Vec::new(),
        };
        let ghost listed_v = listed@;
        let kept = if self.filter.unicode_len() > 0 {
            filter_entries(listed, self.filter.as_str())
        } else {
            listed
        };
        assert(kept@ == filtered(listed_v, self.filter@));
        let sorted = sort_entry_list(kept, self.sort_field, self.sort_dir, self.dirs_first);
        self.entries = sorted;
        self.clamp_cursor();
        self.selected.clear();
        assert(shown_entries(
            self.entries@,
            r,
            self.show_hidden,
            self.filter@,
            self.sort_field,
            self.sort_dir,
            self.dirs_first,
        ));
    }

    /// Move into the entry under the cursor when it is a directory: cursor
    /// and scroll go to the top and the filter is cleared; the listing is
    /// not reloaded here.
    fn move_into_entry(&mut self) -> (moved: bool)
        ensures
            moved == (0 <= old(self)@.cursor < old(self)@.entries.len()
                && old(self)@.entries[old(self)@.cursor].is_dir),
            final(self)@ == if moved {
                moved_to(old(self)@, old(self)@.entries[old(self)@.cursor].path@)
            } else {
                old(self)@
            },
    {
        if self.cursor < self.entries.len() && self.entries[self.cursor].is_dir {
            let new_path = self.entries[self.cursor].path.clone();
            self.path = new_path;
            self.cursor = 0;
            self.scroll_offset = 0;
            self.filter = String::new();
            return true;
        }
        false
    }

    /// Move to the parent directory, if the path has one: cursor and scroll
    /// go to the top and the filter is cleared; the listing is not reloaded
    /// here (the application asks for it as its next step).
    pub(crate) fn move_to_parent(&mut self) -> (moved: bool)
        ensures
            moved == (parent_of(old(self)@.path) is Some),
            final(self)@ == if moved {
                moved_to(old(self)@, parent_of(old(self)@.path)->Some_0)
            } else {
                old(self)@
            },
    {
        match path_parent(self.path.as_str()) {
            Some(parent) => {
                self.path = parent;
                self.cursor = 0;
                self.scroll_offset = 0;
                self.filter = String::new();
                true
            },
            None => false,
        }
    }

    /// Move to `path` when it is a directory (`is_dir`, as observed by the
    /// caller); the listing is not reloaded here.
    pub(crate) fn move_to(&mut self, path: String, is_dir: bool)
        ensures
            final(self)@ == if is_dir {
                moved_to(old(self)@, path@)
            } else {
                old(self)@
            },
    {
        if is_dir {
            self.path = path;
            self.cursor = 0;
            self.scroll_offset = 0;
            self.filter = String::new();
        }
    }

    /// Move cursor down (stops at the last entry).
    pub fn cursor_down(&mut self)
        ensures
            final(self)@ == (PaneView { cursor: cursor_after_down(old(self)@), ..old(self)@ }),
            old(self).cursor_in_range() ==> final(self).cursor_in_range(),
    {
        if self.entries.len() > 0 && self.cursor < self.entries.len() - 1 {
            self.cursor = self.cursor + 1;
        }
    }

    /// Move cursor up (stops at the first entry).
    pub fn cursor_up(&mut self)
        ensures
            final(self)@ == (PaneView { cursor: cursor_after_up(old(self)@), ..old(self)@ }),
            old(self).cursor_in_range() ==> final(self).cursor_in_range(),
    {
        if self.cursor > 0 {
            self.cursor = self.cursor - 1;
        }
    }

    /// Jump to the first entry.
    pub fn cursor_top(&mut self)
        ensures
            final(self)@ == (PaneView { cursor: 0, ..old(self)@ }),
            final(self).cursor_in_range(),
    {
        self.cursor = 0;
    }

    /// Jump to the last entry (no change when there is none).
    pub fn cursor_bottom(&mut self)
        ensures
            final(self)@ == (PaneView { cursor: cursor_at_bottom(old(self)@), ..old(self)@ }),
            old(self).cursor_in_range() ==> final(self).cursor_in_range(),
    {
        if self.entries.len() > 0 {
            self.cursor = self.entries.len() - 1;
        }
    }

    /// Toggle selection of the entry under cursor (nothing when the pane is
    /// empty).
    pub fn toggle_selection(&mut self)
        ensures
            final(self)@ == (PaneView { selected: selection_toggled(old(self)@), ..old(self)@ }),
    {
        if self.entries.len() == 0 {
            return;
        }
        if self.selected.contains(&self.cursor) {
            self.selected.remove(&self.cursor);
        } else {
            self.selected.insert(self.cursor);
        }
    }

    /// Select all entries.
    pub fn select_all(&mut self)
        ensures
            final(self)@ == (PaneView {
                selected: old(self)@.selected.union(Set::new(|i: usize| i < old(self)@.entries.len())),
                ..old(self)@
            }),
    {
        let ghost before = self.selected@;
        let n = self.entries.len();
        let mut i: usize = 0;
        assert(self.selected@ =~= before.union(Set::new(|k: usize| k < 0)));
        while i < n
            invariant
                n == self.entries.len(),
                i <= n,
                self@ == (PaneView { selected: before.union(Set::new(|k: usize| k < i)), ..old(self)@ }),
            decreases n - i,
        {
            self.selected.insert(i);
            i = i + 1;
            assert(self.selected@ =~= before.union(Set::new(|k: usize| k < i)));
        }
        assert(self.selected@ =~= before.union(Set::new(|k: usize| k < n)));
    }

    /// Clear all selections.
    pub fn clear_selection(&mut self)
        ensures
            final(self)@ == (PaneView { selected: Set::empty(), ..old(self)@ }),
    {
        self.selected.clear();
    }

    /// The entry under the cursor.
    pub fn current_entry(&self) -> (r: Option<&FileEntry>)
        ensures
            r == if self.cursor < self.entries.len() {
                Some(&self.entries@[self.cursor as int])
            } else {
                None
            },
    {
        if self.cursor < self.entries.len() {
            Some(&self.entries[self.cursor])
        } else {
            None
        }
    }

    /// The selected entries in listing order, or the entry under the cursor
    /// when nothing is selected. Selected indices past the end are skipped.
    pub fn selected_entries(&self) -> (r: Vec<&FileEntry>)
        ensures
            r@.len() == selected_view_order(self@).len(),
            forall|k: int| 0 <= k < r@.len() ==> *#[trigger] r@[k] == selected_view_order(self@)[k],
    {
        let mut r: Vec<&FileEntry> = Vec::new();
        if self.selected.is_empty() {
            if self.cursor < self.entries.len() {
                r.push(&self.entries[self.cursor]);
            }
            return r;
        }
        let mut i: usize = 0;
        while i < self.entries.len()
            invariant
                i <= self.entries.len(),
                !self.selected@.is_empty(),
                r@.len() == selected_in_order(self.entries@, self.selected@, i as int).len(),
                forall|k: int|
                    0 <= k < r@.len() ==> *#[trigger] r@[k] == selected_in_order(
                        self.entries@,
                        self.selected@,
                        i as int,
                    )[k],
            decreases self.entries.len() - i,
        {
            if self.selected.contains(&i) {
                r.push(&self.entries[i]);
            }
            i = i + 1;
        }
        r
    }

    /// Paths of the selected entries (or of the cursor entry when nothing is
    /// selected), in the order of `selected_entries`.
    pub fn selected_paths(&self) -> (r: Vec<String>)
        ensures
            r@ == selected_path_list(self@),
    {
        let es = self.selected_entries();
        let mut r: Vec<String> = Vec::new();
        let mut i: usize = 0;
        while i < es.len()
            invariant
                i <= es.len(),
                es@.len() == selected_view_order(self@).len(),
                forall|k: int| 0 <= k < es@.len() ==> *#[trigger] es@[k] == selected_view_order(self@)[k],
                r@.len() == i,
                forall|k: int| 0 <= k < i ==> #[trigger] r@[k] == es@[k].path,
            decreases es.len() - i,
        {
            r.push(es[i].path.clone());
            i = i + 1;
        }
        assert(r@ =~= selected_path_list(self@));
        r
    }

    /// Set sort field and direction, and re-sort the entries.
    pub fn set_sort(&mut self, field: SortField, direction: SortDirection)
        ensures
            final(self)@ == (PaneView {
                entries: final(self)@.entries,
                sort_field: field,
                sort_dir: direction,
                ..old(self)@
            }),
            stably_sorted(
                final(self)@.entries,
                old(self)@.entries,
                entry_keys(old(self)@.entries, field, direction, old(self)@.dirs_first),
            ),
    {
        self.sort_field = field;
        self.sort_dir = direction;
        self.sort_entries();
    }

    /// Flip hidden-file visibility; the listing is not reloaded here (the
    /// application asks for it as its next step).
    pub(crate) fn flip_hidden(&mut self)
        ensures
            final(self)@ == (PaneView { show_hidden: !old(self)@.show_hidden, ..old(self)@ }),
    {
        self.show_hidden = !self.show_hidden;
    }

    /// Replace the filter string; the listing is not reloaded here (the
    /// application asks for it as its next step).
    pub(crate) fn replace_filter(&mut self, filter: String)
        ensures
            final(self)@ == (PaneView { filter: filter@, ..old(self)@ }),
    {
        self.filter = filter;
    }

    /// The directory `enter` moves into: the entry under the cursor, when
    /// it is a directory.
    pub fn entry_target(&self) -> (r: Option<String>)
        ensures
            r is Some == (0 <= self@.cursor < self@.entries.len() && self@.entries[self@.cursor].is_dir),
            r is Some ==> r->Some_0@ == self@.entries[self@.cursor].path@,
    {
        if self.cursor < self.entries.len() && self.entries[self.cursor].is_dir {
            Some(self.entries[self.cursor].path.clone())
        } else {
            None
        }
    }

    /// The directory `go_parent` moves to: the parent of the pane's path.
    pub fn parent_target(&self) -> (r: Option<String>)
        ensures
            match r {
                Some(q) => parent_of(self@.path) == Some(q@),
                None => parent_of(self@.path) is None,
            },
    {
        path_parent(self.path.as_str())
    }

    /// Navigate into the entry under the cursor when it is a directory,
    /// given what was read of that directory (see `entry_target`): the pane
    /// moves there with cursor and scroll at the top and the filter cleared,
    /// and reloads. Returns true if navigation happened; otherwise nothing
    /// changes.
    pub fn enter(&mut self, read: Result<Vec<FileEntry>, FsError>) -> (moved: bool)
        ensures
            moved == (0 <= old(self)@.cursor < old(self)@.entries.len()
                && old(self)@.entries[old(self)@.cursor].is_dir),
            moved ==> final(self)@ == reloaded(
                moved_to(old(self)@, old(self)@.entries[old(self)@.cursor].path@),
                final(self)@.entries,
            ),
            moved ==> shows(
                moved_to(old(self)@, old(self)@.entries[old(self)@.cursor].path@),
                final(self)@.entries,
                read,
            ),
            !moved ==> final(self)@ == old(self)@,
            old(self).cursor_in_range() ==> final(self).cursor_in_range(),
    {
        let moved = self.move_into_entry();
        if moved {
            self.refresh(read);
        }
        moved
    }

    /// Navigate to the parent directory, if the path has one, given what
    /// was read of it (see `parent_target`): the pane moves there with
    /// cursor and scroll at the top and the filter cleared, and reloads.
    /// Returns true if navigation happened; otherwise nothing changes.
    pub fn go_parent(&mut self, read: Result<Vec<FileEntry>, FsError>) -> (moved: bool)
        ensures
            moved == (parent_of(old(self)@.path) is Some),
            moved ==> final(self)@ == reloaded(
                moved_to(old(self)@, parent_of(old(self)@.path)->Some_0),
                final(self)@.entries,
            ),
            moved ==> shows(moved_to(old(self)@, parent_of(old(self)@.path)->Some_0), final(self)@.entries, read),
            !moved ==> final(self)@ == old(self)@,
            old(self).cursor_in_range() ==> final(self).cursor_in_range(),
    {
        let moved = self.move_to_parent();
        if moved {
            self.refresh(read);
        }
        moved
    }

    /// Navigate to `path` when it is a directory (`is_dir`, as observed by
    /// the caller), given what was read of it: the pane moves there with
    /// cursor and scroll at the top and the filter cleared, and reloads;
    /// otherwise nothing changes.
    pub fn navigate_to(&mut self, path: String, is_dir: bool, read: Result<Vec<FileEntry>, FsError>)
        ensures
            is_dir ==> final(self)@ == reloaded(moved_to(old(self)@, path@), final(self)@.entries),
            is_dir ==> shows(moved_to(old(self)@, path@), final(self)@.entries, read),
            !is_dir ==> final(self)@ == old(self)@,
            old(self).cursor_in_range() ==> final(self).cursor_in_range(),
    {
        self.move_to(path, is_dir);
        if is_dir {
            self.refresh(read);
        }
    }

    /// Toggle hidden-file visibility and reload from what was read of the
    /// pane's directory.
    pub fn toggle_hidden(&mut self, read: Result<Vec<FileEntry>, FsError>)
        ensures
            final(self)@ == reloaded(
                (PaneView { show_hidden: !old(self)@.show_hidden, ..old(self)@ }),
                final(self)@.entries,
            ),
            shows((PaneView { show_hidden: !old(self)@.show_hidden, ..old(self)@ }), final(self)@.entries, read),
            final(self).cursor_in_range(),
    {
        self.flip_hidden();
        self.refresh(read);
    }

    /// Set the filter string and re-filter from what was read of the pane's
    /// directory.
    pub fn set_filter(&mut self, filter: String, read: Result<Vec<FileEntry>, FsError>)
        ensures
            final(self)@ == reloaded((PaneView { filter: filter@, ..old(self)@ }), final(self)@.entries),
            shows((PaneView { filter: filter@, ..old(self)@ }), final(self)@.entries, read),
            final(self).cursor_in_range(),
    {
        self.replace_filter(filter);
        self.refresh(read);
    }

    /// Update the scroll offset so that the cursor is visible in a window of
    /// `visible_height` rows (no change for a zero height).
    pub fn update_scroll(&mut self, visible_height: usize)
        requires
            old(self).cursor >= old(self).scroll_offset ==> old(self).scroll_offset + visible_height
                <= usize::MAX,
        ensures
            final(self)@ == (PaneView {
                scroll_offset: if visible_height == 0 {
                    old(self)@.scroll_offset
                } else if old(self)@.cursor < old(self)@.scroll_offset {
                    old(self)@.cursor
                } else if old(self)@.cursor >= old(self)@.scroll_offset + visible_height {
                    old(self)@.cursor - visible_height + 1
                } else {
                    old(self)@.scroll_offset
                },
                ..old(self)@
            }),
            visible_height > 0 ==> final(self).scroll_offset <= final(self).cursor
                < final(self).scroll_offset + visible_height,
    {
        if visible_height == 0 {
            return;
        }
        if self.cursor < self.scroll_offset {
            self.scroll_offset = self.cursor;
        } else if self.cursor >= self.scroll_offset + visible_height {
            self.scroll_offset = self.cursor - visible_height + 1;
        }
    }

    fn sort_entries(&mut self)
        ensures
            final(self)@ == (PaneView { entries: final(self)@.entries, ..old(self)@ }),
            stably_sorted(
                final(self)@.entries,
                old(self)@.entries,
                entry_keys(old(self)@.entries, old(self).sort_field, old(self).sort_dir, old(self).dirs_first),
            ),
    {
        let mut entries: Vec<FileEntry> = Vec::new();
        std::mem::swap(&mut entries, &mut self.entries);
        self.entries = sort_entry_list(entries, self.sort_field, self.sort_dir, self.dirs_first);
    }

    fn clamp_cursor(&mut self)
        ensures
            final(self)@ == (PaneView { cursor: clamped(old(self)@.cursor, old(self)@.entries.len() as int), ..old(self)@ }),
            final(self).cursor_in_range(),
    {
        if self.entries.len() == 0 {
            self.cursor = 0;
        } else if self.cursor >= self.entries.len() {
            self.cursor = self.entries.len() - 1;
        }
    }
}

/// The entries at selected indices below `upto`, in index order.
pub open spec fn selected_in_order(es: Seq<FileEntry>, sel: Set<usize>, upto: int) -> Seq<FileEntry>
    decreases upto,
{
    if upto <= 0 {
        Seq::empty()
    } else {
        let prev = selected_in_order(es, sel, upto - 1);
        if sel.contains((upto - 1) as usize) && upto - 1 < es.len() {
            prev.push(es[upto - 1])
        } else {
            prev
        }
    }
}

/// Entries whose lower-cased name contains the lower-cased `filter`.
fn filter_entries(entries: Vec<FileEntry>, filter: &str) -> (out: Vec<FileEntry>)
    requires
        filter@.len() > 0,
    ensures
        out@ == filtered(entries@, filter@),
{
    let needle = chars_of(to_lower(filter).as_str());
    let mut out: Vec<FileEntry> = Vec::new();
    let mut i: usize = 0;
    while i < entries.len()
        invariant
            i <= entries.len(),
            needle@ == lowercase(filter@),
            out@ == entries@.take(i as int).filter(|e: FileEntry| matches_filter(e, filter@)),
        decreases entries.len() - i,
    {
        proof {
            assert(entries@.take(i + 1).drop_last() =~= entries@.take(i as int));
            reveal_with_fuel(Seq::filter, 1);
        }
        let hay = chars_of(to_lower(entries[i].name.as_str()).as_str());
        if contains_chars(&hay, &needle) {
            out.push(entries[i].clone());
        }
        i = i + 1;
    }
    assert(entries@.take(entries.len() as int) =~= entries@);
    out
}

/// The key of one entry, computed.
fn key_of(e: &FileEntry, field: SortField, dir: SortDirection, dirs_first: bool) -> (k: SortKey)
    ensures
        k@ == entry_key(*e, field, dir, dirs_first),
{
    let rank: u8 = if dirs_first && !e.is_dir {
        1
    } else {
        0
    };
    let descending = dir == SortDirection::Descending;
    match field {
        SortField::Name => {
            let text = chars_of(to_lower(e.name.as_str()).as_str());
            SortKey { rank, text, num: 0, descending }
        },
        SortField::Size => SortKey { rank, text: Vec::new(), num: e.size as i128, descending },
        SortField::Modified => SortKey { rank, text: Vec::new(), num: e.modified, descending },
        SortField::Extension => {
            let text = match path_extension(e.name.as_str()) {
                Some(x) => chars_of(x.as_str()),
                None => Vec::new(),
            };
            SortKey { rank, text, num: 0, descending }
        },
    }
}

/// Stable sort of entries by the pane's key.
fn sort_entry_list(
    entries: Vec<FileEntry>,
    field: SortField,
    dir: SortDirection,
    dirs_first: bool,
) -> (out: Vec<FileEntry>)
    ensures
        stably_sorted(out@, entries@, entry_keys(entries@, field, dir, dirs_first)),
{
    let mut keys: Vec<SortKey> = Vec::new();
    let mut i: usize = 0;
    while i < entries.len()
        invariant
            i <= entries.len(),
            keys.len() == i,
            forall|k: int|
                0 <= k < i ==> (#[trigger] keys@[k])@ == entry_key(entries@[k], field, dir, dirs_first),
        decreases entries.len() - i,
    {
        keys.push(key_of(&entries[i], field, dir, dirs_first));
        i = i + 1;
    }
    assert(key_views(keys@) =~= entry_keys(entries@, field, dir, dirs_first));
    sort_by_keys(entries, keys)
}

/// Dual-pane state: left + right panes with active pane tracking.
#[derive(Debug)]
pub struct DualPane {
    pub left: Pane,
    pub right: Pane,
    /// Which pane is active: `false` = left, `true` = right.
    pub active_right: bool,
}

/// The mathematical content of a dual pane.
pub struct DualView {
    pub left: PaneView,
    pub right: PaneView,
    pub active_right: bool,
}

impl View for DualPane {
    type V = DualView;

    open spec fn view(&self) -> DualView {
        DualView { left: self.left@, right: self.right@, active_right: self.active_right }
    }
}

/// The active pane of a dual pane.
pub open spec fn active_of(d: DualView) -> PaneView {
    if d.active_right {
        d.right
    } else {
        d.left
    }
}

/// The inactive pane of a dual pane.
pub open spec fn inactive_of(d: DualView) -> PaneView {
    if d.active_right {
        d.left
    } else {
        d.right
    }
}

/// The dual pane with its active pane replaced by `p`.
pub open spec fn with_active(d: DualView, p: PaneView) -> DualView {
    if d.active_right {
        DualView { right: p, ..d }
    } else {
        DualView { left: p, ..d }
    }
}

impl DualPane {
    /// A dual-pane layout with the left pane active.
    pub fn new(left: Pane, right: Pane) -> (d: Self)
        ensures
            d@ == (DualView { left: left@, right: right@, active_right: false }),
    {
        DualPane { left, right, active_right: false }
    }

    /// The active pane.
    pub fn active(&self) -> (p: &Pane)
        ensures
            p@ == active_of(self@),
    {
        if self.active_right {
            &self.right
        } else {
            &self.left
        }
    }

    /// The active pane, for changing it.
    pub fn active_mut(&mut self) -> (p: &mut Pane)
        ensures
            (*p)@ == active_of(old(self)@),
            final(self)@ == with_active(old(self)@, (*final(p))@),
    {
        if self.active_right {
            &mut self.right
        } else {
            &mut self.left
        }
    }

    /// The inactive pane.
    pub fn inactive(&self) -> (p: &Pane)
        ensures
            p@ == inactive_of(self@),
    {
        if self.active_right {
            &self.left
        } else {
            &self.right
        }
    }

    /// Switch the active pane.
    pub fn toggle_active(&mut self)
        ensures
            final(self)@ == (DualView { active_right: !old(self)@.active_right, ..old(self)@ }),
    {
        self.active_right = !self.active_right;
    }
}

/// A byte count as `humansize` formats it with binary (1024-based) units,
/// e.g. "0 B", "1 KiB", "1.50 MiB".
pub uninterp spec fn human_size(bytes: u64) -> Seq<char>;

/// Format a file size in human-readable form: `humansize::format_size` with
/// `humansize::BINARY`, whose result is named `human_size`.
#[verifier::external_body]
pub fn format_size(bytes: u64) -> (r: String)
    ensures
        r@ == human_size(bytes),
{
    humansize::format_size(bytes, humansize::BINARY)
}

/// The UTC date and minute of a Unix time in seconds, as chrono formats it
/// with "%Y-%m-%d %H:%M", or none when chrono cannot represent that time.
pub uninterp spec fn minute_stamp(secs: i64) -> Option<Seq<char>>;

/// `chrono::DateTime::from_timestamp(secs, 0)` formatted with
/// "%Y-%m-%d %H:%M"; the result is named `minute_stamp`.
#[verifier::external_body]
fn utc_minute_stamp(secs: i64) -> (r: Option<String>)
    ensures
        match r {
            Some(s) => minute_stamp(secs) == Some(s@),
            None => minute_stamp(secs) is None,
        },
{
    match chrono::DateTime::from_timestamp(secs, 0) {
        Some(dt) => Some(dt.format("%Y-%m-%d %H:%M").to_string()),
        None => None,
    }
}

/// Whole seconds since the Unix epoch of a timestamp in nanoseconds: 0
/// before the epoch, and 0 beyond what an `i64` holds.
pub open spec fn epoch_seconds(nanos: i128) -> i64 {
    let s = if nanos >= 0 {
        nanos / 1_000_000_000
    } else {
        0
    };
    if s <= i64::MAX {
        s as i64
    } else {
        0
    }
}

/// The text `format_time` gives for a timestamp.
pub open spec fn time_text(nanos: i128) -> Seq<char> {
    match minute_stamp(epoch_seconds(nanos)) {
        Some(t) => t,
        None => "unknown"@,
    }
}

/// Format a timestamp (nanoseconds since the Unix epoch) as a UTC date and
/// minute, "unknown" when it cannot be represented.
pub fn format_time(time: i128) -> (r: String)
    ensures
        r@ == time_text(time),
{
    let s: i128 = if time >= 0 {
        time / 1_000_000_000
    } else {
        0
    };
    let secs: i64 = if s <= 9_223_372_036_854_775_807i128 {
        s as i64
    } else {
        0
    };
    match utc_minute_stamp(secs) {
        Some(t) => t,
        None => crate::text::owned("unknown"),
    }
}

/// `c` when `mode` has `bit` set, `-` otherwise.
pub open spec fn mode_char(mode: u32, bit: u32, c: char) -> char {
    if mode & bit != 0 {
        c
    } else {
        '-'
    }
}

/// The `ls`-style permission string: the kind (`d` directory, `l` symlink,
/// `-` other) and the owner, group and other rwx bits; ten dashes when the
/// metadata could not be read (`mode` is none).
pub open spec fn permission_text(mode: Option<u32>, is_dir: bool, is_symlink: bool) -> Seq<char> {
    match mode {
        None => "----------"@,
        Some(m) => seq![
            if is_dir {
                'd'
            } else if is_symlink {
                'l'
            } else {
                '-'
            },
            mode_char(m, 0o400, 'r'),
            mode_char(m, 0o200, 'w'),
            mode_char(m, 0o100, 'x'),
            mode_char(m, 0o040, 'r'),
            mode_char(m, 0o020, 'w'),
            mode_char(m, 0o010, 'x'),
            mode_char(m, 0o004, 'r'),
            mode_char(m, 0o002, 'w'),
            mode_char(m, 0o001, 'x'),
        ],
    }
}

fn push_mode_char(s: &mut String, mode: u32, bit: u32, c: char)
    ensures
        final(s)@ == old(s)@.push(mode_char(mode, bit, c)),
{
    if mode & bit != 0 {
        push_char(s, c);
    } else {
        push_char(s, '-');
    }
}

/// Format Unix permissions from the mode bits of a path's metadata (`None`
/// when it could not be read) and whether the path is a directory or a
/// symlink.
pub fn format_permissions(mode: Option<u32>, is_dir: bool, is_symlink: bool) -> (r: String)
    ensures
        r@ == permission_text(mode, is_dir, is_symlink),
{
    match mode {
        None => crate::text::owned("----------"),
        Some(m) => {
            let mut s = String::new();
            if is_dir {
                push_char(&mut s, 'd');
            } else if is_symlink {
                push_char(&mut s, 'l');
            } else {
                push_char(&mut s, '-');
            }
            push_mode_char(&mut s, m, 0o400, 'r');
            push_mode_char(&mut s, m, 0o200, 'w');
            push_mode_char(&mut s, m, 0o100, 'x');
            push_mode_char(&mut s, m, 0o040, 'r');
            push_mode_char(&mut s, m, 0o020, 'w');
            push_mode_char(&mut s, m, 0o010, 'x');
            push_mode_char(&mut s, m, 0o004, 'r');
            push_mode_char(&mut s, m, 0o002, 'w');
            push_mode_char(&mut s, m, 0o001, 'x');
            assert(s@ =~= permission_text(mode, is_dir, is_symlink));
            s
        },
    }
}

/// Toggling the selection twice without moving the cursor restores it.
pub proof fn law_toggle_twice(p: PaneView)
    ensures
        selection_toggled((PaneView { selected: selection_toggled(p), ..p })) == p.selected,
{
    let q = PaneView { selected: selection_toggled(p), ..p };
    if p.entries.len() > 0 {
        if p.selected.contains(p.cursor as usize) {
            assert(selection_toggled(q) =~= p.selected);
        } else {
            assert(selection_toggled(q) =~= p.selected);
        }
    }
}

/// Moving the cursor down and then up returns it where it was, unless it
/// was on the last entry (where moving down does nothing).
pub proof fn law_down_then_up(p: PaneView)
    requires
        0 <= p.cursor,
        p.cursor + 1 < p.entries.len(),
    ensures
        cursor_after_up((PaneView { cursor: cursor_after_down(p), ..p })) == p.cursor,
{
}

/// With directories first, every directory of a sorted listing comes before
/// every file, whatever the field and direction.
pub proof fn law_dirs_first(out: Seq<FileEntry>, inp: Seq<FileEntry>, field: SortField, dir: SortDirection)
    requires
        stably_sorted(out, inp, entry_keys(inp, field, dir, true)),
    ensures
        out.len() == inp.len(),
        forall|i: int, j: int| 0 <= i < j < out.len() && (#[trigger] out[j]).is_dir ==> (#[trigger] out[i]).is_dir,
{
    let ks = entry_keys(inp, field, dir, true);
    let perm = choose|perm: Seq<int>| crate::order::arranged_by(perm, out, inp, ks);
    assert forall|i: int, j: int| 0 <= i < j < out.len() && (#[trigger] out[j]).is_dir implies (#[trigger] out[i]).is_dir by {
        assert(crate::order::precedes(ks[perm[i]], perm[i], ks[perm[j]], perm[j]));
        assert(out[i] == inp[perm[i]] && out[j] == inp[perm[j]]);
        assert(ks[perm[i]] == entry_key(inp[perm[i]], field, dir, true));
        assert(ks[perm[j]] == entry_key(inp[perm[j]], field, dir, true));
    }
}

/// In a stably sorted listing, an earlier entry's key never comes after a
/// later one's.
proof fn lemma_sorted_pair(
    out: Seq<FileEntry>,
    inp: Seq<FileEntry>,
    field: SortField,
    dir: SortDirection,
    dirs_first: bool,
    i: int,
    j: int,
)
    requires
        stably_sorted(out, inp, entry_keys(inp, field, dir, dirs_first)),
        0 <= i < j < out.len(),
    ensures
        key_order(entry_key(out[i], field, dir, dirs_first), entry_key(out[j], field, dir, dirs_first)) <= 0,
{
    let ks = entry_keys(inp, field, dir, dirs_first);
    let perm = choose|perm: Seq<int>| crate::order::arranged_by(perm, out, inp, ks);
    assert(crate::order::precedes(ks[perm[i]], perm[i], ks[perm[j]], perm[j]));
    assert(out[i] == inp[perm[i]] && out[j] == inp[perm[j]]);
}

/// Two entries are ordered among each other by the chosen field alone: both
/// directories or both files, or directories are not put first.
pub open spec fn same_group(a: FileEntry, b: FileEntry, dirs_first: bool) -> bool {
    !dirs_first || a.is_dir == b.is_dir
}

/// Sorted by modification time, entries of one group go from oldest to
/// newest (ascending) or from newest to oldest (descending).
pub proof fn law_sorted_by_modified(out: Seq<FileEntry>, inp: Seq<FileEntry>, dir: SortDirection, dirs_first: bool)
    requires
        stably_sorted(out, inp, entry_keys(inp, SortField::Modified, dir, dirs_first)),
    ensures
        forall|i: int, j: int|
            0 <= i < j < out.len() && same_group(#[trigger] out[i], #[trigger] out[j], dirs_first) ==> if dir
                == SortDirection::Ascending {
                out[i].modified <= out[j].modified
            } else {
                out[i].modified >= out[j].modified
            },
{
    assert forall|i: int, j: int|
        0 <= i < j < out.len() && same_group(#[trigger] out[i], #[trigger] out[j], dirs_first) implies if dir
            == SortDirection::Ascending {
            out[i].modified <= out[j].modified
        } else {
            out[i].modified >= out[j].modified
        } by {
        lemma_sorted_pair(out, inp, SortField::Modified, dir, dirs_first, i, j);
        assert(lex_order(Seq::<char>::empty(), Seq::<char>::empty()) == 0);
    }
}

/// Sorted by size, entries of one group go from smallest to largest
/// (ascending) or from largest to smallest (descending).
pub proof fn law_sorted_by_size(out: Seq<FileEntry>, inp: Seq<FileEntry>, dir: SortDirection, dirs_first: bool)
    requires
        stably_sorted(out, inp, entry_keys(inp, SortField::Size, dir, dirs_first)),
    ensures
        forall|i: int, j: int|
            0 <= i < j < out.len() && same_group(#[trigger] out[i], #[trigger] out[j], dirs_first) ==> if dir
                == SortDirection::Ascending {
                out[i].size <= out[j].size
            } else {
                out[i].size >= out[j].size
            },
{
    assert forall|i: int, j: int|
        0 <= i < j < out.len() && same_group(#[trigger] out[i], #[trigger] out[j], dirs_first) implies if dir
            == SortDirection::Ascending {
            out[i].size <= out[j].size
        } else {
            out[i].size >= out[j].size
        } by {
        lemma_sorted_pair(out, inp, SortField::Size, dir, dirs_first, i, j);
        assert(lex_order(Seq::<char>::empty(), Seq::<char>::empty()) == 0);
    }
}

/// Sorted by name, entries of one group follow the character order of their
/// lower-cased names, forwards (ascending) or backwards (descending).
pub proof fn law_sorted_by_name(out: Seq<FileEntry>, inp: Seq<FileEntry>, dir: SortDirection, dirs_first: bool)
    requires
        stably_sorted(out, inp, entry_keys(inp, SortField::Name, dir, dirs_first)),
    ensures
        forall|i: int, j: int|
            0 <= i < j < out.len() && same_group(#[trigger] out[i], #[trigger] out[j], dirs_first) ==> if dir
                == SortDirection::Ascending {
                lex_order(lowercase(out[i].name@), lowercase(out[j].name@)) <= 0
            } else {
                lex_order(lowercase(out[i].name@), lowercase(out[j].name@)) >= 0
            },
{
    assert forall|i: int, j: int|
        0 <= i < j < out.len() && same_group(#[trigger] out[i], #[trigger] out[j], dirs_first) implies if dir
            == SortDirection::Ascending {
            lex_order(lowercase(out[i].name@), lowercase(out[j].name@)) <= 0
        } else {
            lex_order(lowercase(out[i].name@), lowercase(out[j].name@)) >= 0
        } by {
        lemma_sorted_pair(out, inp, SortField::Name, dir, dirs_first, i, j);
    }
}

/// A non-empty filter keeps exactly the entries of the listing in whose
/// lower-cased name the lower-cased filter occurs at some position, in the
/// listing's order; an empty filter keeps every entry.
pub proof fn law_filter_keeps_substring_matches(es: Seq<FileEntry>, filter: Seq<char>)
    ensures
        filter.len() == 0 ==> filtered(es, filter) == es,
        filter.len() > 0 ==> forall|e: FileEntry|
            #[trigger] filtered(es, filter).contains(e) <==> (es.contains(e) && exists|i: int|
                occurs_at(lowercase(e.name@), lowercase(filter), i)),
        filter.len() > 0 ==> filtered(es, filter).len() <= es.len(),
{
    broadcast use vstd::seq_lib::group_filter_ensures;
    if filter.len() > 0 {
        let f = |e: FileEntry| matches_filter(e, filter);
        assert(filtered(es, filter) == es.filter(f));
        assert forall|e: FileEntry|
            #[trigger] filtered(es, filter).contains(e) <==> (es.contains(e) && exists|i: int|
                occurs_at(lowercase(e.name@), lowercase(filter), i)) by {
            if es.contains(e) && f(e) {
                let k = choose|k: int| 0 <= k < es.len() && es[k] == e;
                es.lemma_filter_contains(f, k);
            }
            if es.filter(f).contains(e) {
                es.lemma_filter_contains_rev(f, e);
                let k = choose|k: int| 0 <= k < es.filter(f).len() && es.filter(f)[k] == e;
                assert(f(es.filter(f)[k]));
            }
        }
    }
}

/// An entry whose lower-cased name ends with the lower-cased (non-empty)
/// filter is kept by it.
pub proof fn law_filter_keeps_suffix_match(es: Seq<FileEntry>, filter: Seq<char>, e: FileEntry)
    requires
        filter.len() > 0,
        es.contains(e),
        lowercase(filter).len() <= lowercase(e.name@).len(),
        lowercase(e.name@).subrange(
            lowercase(e.name@).len() - lowercase(filter).len(),
            lowercase(e.name@).len() as int,
        ) == lowercase(filter),
    ensures
        filtered(es, filter).contains(e),
{
    law_filter_keeps_substring_matches(es, filter);
    assert(occurs_at(lowercase(e.name@), lowercase(filter), lowercase(e.name@).len() - lowercase(filter).len()));
}

/// The lower-cased filter occurs at some position of the entry's
/// lower-cased name.
pub open spec fn name_has(e: FileEntry, filter: Seq<char>) -> bool {
    exists|k: int| occurs_at(lowercase(e.name@), lowercase(filter), k)
}

/// Every entry a pane shows under a non-empty filter has the lower-cased
/// filter somewhere in its lower-cased name.
pub proof fn law_shown_entries_match_filter(
    out: Seq<FileEntry>,
    read: Result<Vec<FileEntry>, FsError>,
    show_hidden: bool,
    filter: Seq<char>,
    field: SortField,
    dir: SortDirection,
    dirs_first: bool,
)
    requires
        shown_entries(out, read, show_hidden, filter, field, dir, dirs_first),
        filter.len() > 0,
    ensures
        forall|i: int| 0 <= i < out.len() ==> name_has(#[trigger] out[i], filter),
{
    let listed = choose|listed: Seq<FileEntry>|
        {
            &&& match read {
                Ok(es) => listing_ok(listed, es@, show_hidden),
                Err(_) => listed.len() == 0,
            }
            &&& stably_sorted(
                out,
                filtered(listed, filter),
                entry_keys(filtered(listed, filter), field, dir, dirs_first),
            )
        };
    let inp = filtered(listed, filter);
    let perm = choose|perm: Seq<int>|
        crate::order::arranged_by(perm, out, inp, entry_keys(inp, field, dir, dirs_first));
    law_filter_keeps_substring_matches(listed, filter);
    assert forall|i: int| 0 <= i < out.len() implies name_has(#[trigger] out[i], filter) by {
        assert(out[i] == inp[perm[i]]);
        assert(inp.contains(inp[perm[i]]));
    }
}

/// Sorted by extension, entries of one group follow the character order of
/// their extensions (the empty text for names without one), forwards
/// (ascending) or backwards (descending).
pub proof fn law_sorted_by_extension(out: Seq<FileEntry>, inp: Seq<FileEntry>, dir: SortDirection, dirs_first: bool)
    requires
        stably_sorted(out, inp, entry_keys(inp, SortField::Extension, dir, dirs_first)),
    ensures
        forall|i: int, j: int|
            0 <= i < j < out.len() && same_group(#[trigger] out[i], #[trigger] out[j], dirs_first) ==> if dir
                == SortDirection::Ascending {
                lex_order(extension_or_empty(out[i].name@), extension_or_empty(out[j].name@)) <= 0
            } else {
                lex_order(extension_or_empty(out[i].name@), extension_or_empty(out[j].name@)) >= 0
            },
{
    assert forall|i: int, j: int|
        0 <= i < j < out.len() && same_group(#[trigger] out[i], #[trigger] out[j], dirs_first) implies if dir
            == SortDirection::Ascending {
            lex_order(extension_or_empty(out[i].name@), extension_or_empty(out[j].name@)) <= 0
        } else {
            lex_order(extension_or_empty(out[i].name@), extension_or_empty(out[j].name@)) >= 0
        } by {
        lemma_sorted_pair(out, inp, SortField::Extension, dir, dirs_first, i, j);
    }
}

} // verus!
