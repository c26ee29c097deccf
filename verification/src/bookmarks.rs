//! Bookmark management: saved directories and recent locations.
//!
//! Bookmarks are kept as path strings and compared as paths. The store is
//! persisted by the caller (`~/.config/tanken/bookmarks.json`) whenever an
//! operation here reports a change. Recent directories are tracked most
//! recent first, up to `MAX_RECENT` of them.

use vstd::prelude::*;
use std::collections::VecDeque;
use crate::path::{joined, path_join, paths_equal, same_place};
use crate::places::home_dir;
use crate::text::{chars_of, has_prefix, owned, string_of};

verus! {

/// Maximum number of recent directories to track.
pub const MAX_RECENT: usize = 50;

/// Bookmarks + recent directories.
#[derive(Debug)]
pub struct BookmarkStore {
    /// Manually bookmarked directories.
    pub bookmarks: Vec<String>,
    /// Recently visited directories (most recent first).
    pub recent: VecDeque<String>,
}

impl Default for BookmarkStore {
    fn default() -> (s: Self)
        ensures
            s.bookmarks@.len() == 0,
            s.recent@.len() == 0,
    {
        BookmarkStore { bookmarks: Vec::new(), recent: VecDeque::new() }
    }
}

/// The mathematical content of a bookmark store: the bookmarked paths and
/// the recent paths (most recent first).
pub struct BookmarkView {
    pub bookmarks: Seq<Seq<char>>,
    pub recent: Seq<Seq<char>>,
}

/// The character sequences of a sequence of strings.
pub open spec fn string_views(list: Seq<String>) -> Seq<Seq<char>> {
    list.map_values(|s: String| s@)
}

impl View for BookmarkStore {
    type V = BookmarkView;

    open spec fn view(&self) -> BookmarkView {
        BookmarkView { bookmarks: string_views(self.bookmarks@), recent: string_views(self.recent@) }
    }
}

/// Some path in `list` names the same place as `p`.
pub open spec fn has_path(list: Seq<Seq<char>>, p: Seq<char>) -> bool {
    exists|i: int| 0 <= i < list.len() && same_place(#[trigger] list[i], p)
}

/// The paths of `list` that do not name the same place as `p`, in order.
pub open spec fn without_path(list: Seq<Seq<char>>, p: Seq<char>) -> Seq<Seq<char>> {
    list.filter(|q: Seq<char>| !same_place(q, p))
}

/// The recent list after visiting `p`: `p` first, then the earlier entries
/// that are not the same path, cut to `MAX_RECENT`.
pub open spec fn after_visit(recent: Seq<Seq<char>>, p: Seq<char>) -> Seq<Seq<char>> {
    let full = seq![p] + without_path(recent, p);
    if full.len() > MAX_RECENT {
        full.take(MAX_RECENT as int)
    } else {
        full
    }
}

/// `~/rest` resolved against `home`, `~` to `home` itself; any other path
/// (or any path when there is no home directory) unchanged.
pub open spec fn expanded_path(p: Seq<char>, home: Option<Seq<char>>) -> Seq<char> {
    match home {
        Some(h) => if has_prefix(p, seq!['~', '/']) {
            joined(h, p.skip(2))
        } else if p == seq!['~'] {
            h
        } else {
            p
        },
        None => p,
    }
}

/// The bookmarks after merging `config` (expanded against `home`) into
/// `existing`: each configured path not yet present is appended in order.
pub open spec fn merged(existing: Seq<Seq<char>>, config: Seq<String>, home: Option<Seq<char>>) -> Seq<
    Seq<char>,
>
    decreases config.len(),
{
    if config.len() == 0 {
        existing
    } else {
        let prev = merged(existing, config.drop_last(), home);
        let e = expanded_path(config.last()@, home);
        if exists|i: int| 0 <= i < prev.len() && same_place(#[trigger] prev[i], e) {
            prev
        } else {
            prev.push(e)
        }
    }
}

/// Expand `~` against a given home directory (`~/x` becomes home joined
/// with `x`, `~` becomes home).
pub fn expand_tilde_with(path: &str, home: Option<&str>) -> (r: String)
    ensures
        r@ == expanded_path(
            path@,
            match home {
                Some(h) => Some(h@),
                None => None,
            },
        ),
{
    let chars = chars_of(path);
    match home {
        Some(h) => {
            if chars.len() >= 2 && chars[0] == '~' && chars[1] == '/' {
                proof {
                    reveal_strlit("~/");
                    assert(path@.take(2) =~= seq!['~', '/']);
                }
                let mut rest: Vec<char> = Vec::new();
                let mut i: usize = 2;
                while i < chars.len()
                    invariant
                        2 <= i <= chars.len(),
                        chars@ == path@,
                        rest@ == path@.subrange(2, i as int),
                    decreases chars.len() - i,
                {
                    rest.push(chars[i]);
                    i = i + 1;
                    assert(rest@ =~= path@.subrange(2, i as int));
                }
                assert(path@.skip(2) =~= path@.subrange(2, path@.len() as int));
                let rest_s = string_of(&rest);
                return path_join(h, rest_s.as_str());
            }
            if chars.len() == 1 && chars[0] == '~' {
                assert(path@ =~= seq!['~']);
                return owned(h);
            }
            proof {
                if has_prefix(path@, seq!['~', '/']) {
                    assert(path@.take(2)[0] == '~');
                    assert(path@.take(2)[1] == '/');
                }
                if path@ == seq!['~'] {
                    assert(chars@.len() == 1);
                }
            }
            owned(path)
        },
        None => owned(path),
    }
}

/// Expand `~` to the user's home directory. Paths that neither are `~` nor
/// start with `~/` come back unchanged; the others are expanded against
/// whatever home directory the environment gives.
pub fn expand_tilde(path: &str) -> (r: String)
    ensures
        exists|home: Option<Seq<char>>| r@ == expanded_path(path@, home),
        !has_prefix(path@, seq!['~', '/']) && path@ != seq!['~'] ==> r@ == path@,
{
    let home = home_dir();
    match home {
        Some(h) => expand_tilde_with(path, Some(h.as_str())),
        None => expand_tilde_with(path, None),
    }
}

/// Does `list` hold a path equal to `p`?
fn list_has_path(list: &Vec<String>, p: &str) -> (r: bool)
    ensures
        r == has_path(string_views(list@), p@),
{
    let ghost v = string_views(list@);
    let mut i: usize = 0;
    while i < list.len()
        invariant
            i <= list.len(),
            v == string_views(list@),
            forall|k: int| 0 <= k < i ==> !same_place(#[trigger] v[k], p@),
        decreases list.len() - i,
    {
        if paths_equal(list[i].as_str(), p) {
            assert(v[i as int] == list@[i as int]@);
            return true;
        }
        assert(v[i as int] == list@[i as int]@);
        i = i + 1;
    }
    false
}

impl BookmarkStore {
    /// Merge the configured bookmarks into a loaded store: each configured
    /// path (with `~` expanded against `home`) that is not already
    /// bookmarked is appended, in order.
    pub fn merge_defaults(self, config_bookmarks: &Vec<String>, home: Option<&str>) -> (s: Self)
        ensures
            s@ == (BookmarkView {
                bookmarks: merged(
                    self@.bookmarks,
                    config_bookmarks@,
                    match home {
                        Some(h) => Some(h@),
                        None => None,
                    },
                ),
                ..self@
            }),
    {
        let ghost h = match home {
            Some(h) => Some(h@),
            None => None,
        };
        let mut store = self;
        let ghost start = store@.bookmarks;
        let mut i: usize = 0;
        assert(config_bookmarks@.take(0) =~= Seq::<String>::empty());
        while i < config_bookmarks.len()
            invariant
                i <= config_bookmarks.len(),
                store@ == (BookmarkView {
                    bookmarks: merged(start, config_bookmarks@.take(i as int), h),
                    ..self@
                }),
                h == match home {
                    Some(h) => Some(h@),
                    None => None::<Seq<char>>,
                },
            decreases config_bookmarks.len() - i,
        {
            let expanded = expand_tilde_with(config_bookmarks[i].as_str(), home);
            let ghost prev = store@.bookmarks;
            assert(config_bookmarks@.take(i + 1).drop_last() =~= config_bookmarks@.take(i as int));
            assert(config_bookmarks@.take(i + 1).last() == config_bookmarks@[i as int]);
            let present = list_has_path(&store.bookmarks, expanded.as_str());
            if !present {
                store.bookmarks.push(expanded);
                assert(store@.bookmarks =~= prev.push(expanded@));
            }
            i = i + 1;
        }
        assert(config_bookmarks@.take(config_bookmarks.len() as int) =~= config_bookmarks@);
        store
    }

    /// Merge the configured bookmarks into a loaded store, expanding `~`
    /// against the home directory the environment gives.
    pub fn load_with_defaults(self, config_bookmarks: &Vec<String>) -> (s: Self)
        ensures
            exists|home: Option<Seq<char>>|
                s@ == (BookmarkView {
                    bookmarks: #[trigger] merged(self@.bookmarks, config_bookmarks@, home),
                    ..self@
                }),
    {
        let home = home_dir();
        match home {
            Some(h) => self.merge_defaults(config_bookmarks, Some(h.as_str())),
            None => self.merge_defaults(config_bookmarks, None),
        }
    }

    /// Add a bookmark. Returns true if it was added (it was not already
    /// bookmarked); the caller then saves the store.
    pub fn add_bookmark(&mut self, path: String) -> (added: bool)
        ensures
            added == !has_path(old(self)@.bookmarks, path@),
            final(self)@ == if added {
                BookmarkView { bookmarks: old(self)@.bookmarks.push(path@), ..old(self)@ }
            } else {
                old(self)@
            },
    {
        if list_has_path(&self.bookmarks, path.as_str()) {
            return false;
        }
        let ghost before = self@.bookmarks;
        self.bookmarks.push(path);
        assert(self@.bookmarks =~= before.push(path@));
        true
    }

    /// Remove every bookmark naming the same path. Returns true if one was
    /// found and removed; the caller then saves the store.
    pub fn remove_bookmark(&mut self, path: &str) -> (removed: bool)
        ensures
            final(self)@ == (BookmarkView {
                bookmarks: without_path(old(self)@.bookmarks, path@),
                ..old(self)@
            }),
            removed == has_path(old(self)@.bookmarks, path@),
    {
        let ghost before = self@.bookmarks;
        let mut kept: Vec<String> = Vec::new();
        let mut i: usize = 0;
        while i < self.bookmarks.len()
            invariant
                i <= self.bookmarks.len(),
                self@ == old(self)@,
                before == old(self)@.bookmarks,
                before.len() == self.bookmarks.len(),
                string_views(kept@) == without_path(before.take(i as int), path@),
                kept@.len() <= i,
                kept@.len() == i <==> forall|k: int| 0 <= k < i ==> !same_place(#[trigger] before[k], path@),
            decreases self.bookmarks.len() - i,
        {
            proof {
                assert(before.take(i + 1).drop_last() =~= before.take(i as int));
                reveal_with_fuel(Seq::filter, 1);
            }
            let ghost kv = string_views(kept@);
            assert(before[i as int] == self.bookmarks@[i as int]@);
            if !paths_equal(self.bookmarks[i].as_str(), path) {
                kept.push(self.bookmarks[i].clone());
                assert(string_views(kept@) =~= kv.push(before[i as int]));
            }
            i = i + 1;
            proof {
                if kept@.len() == i {
                    assert forall|k: int| 0 <= k < i implies !same_place(#[trigger] before[k], path@) by {
                        if k < i - 1 {
                        }
                    }
                }
            }
        }
        assert(before.take(before.len() as int) =~= before);
        let removed = kept.len() < self.bookmarks.len();
        self.bookmarks = kept;
        removed
    }

    /// Is `path` bookmarked?
    pub fn is_bookmarked(&self, path: &str) -> (r: bool)
        ensures
            r == has_path(self@.bookmarks, path@),
    {
        list_has_path(&self.bookmarks, path)
    }

    /// Record a directory visit: `path` moves to the front of the recent
    /// list (earlier entries for the same path are dropped), which is then
    /// cut to `MAX_RECENT`. The caller then saves the store.
    pub fn visit(&mut self, path: String)
        ensures
            final(self)@ == (BookmarkView { recent: after_visit(old(self)@.recent, path@), ..old(self)@ }),
    {
        let ghost before = self@.recent;
        let mut kept: VecDeque<String> = VecDeque::new();
        let mut i: usize = 0;
        while i < self.recent.len()
            invariant
                i <= self.recent.len(),
                self@ == old(self)@,
                before == old(self)@.recent,
                before.len() == self.recent@.len(),
                string_views(kept@) == without_path(before.take(i as int), path@),
            decreases self.recent.len() - i,
        {
            proof {
                assert(before.take(i + 1).drop_last() =~= before.take(i as int));
                reveal_with_fuel(Seq::filter, 1);
            }
            let ghost kv = string_views(kept@);
            assert(before[i as int] == self.recent@[i as int]@);
            if !paths_equal(self.recent[i].as_str(), path.as_str()) {
                kept.push_back(self.recent[i].clone());
                assert(string_views(kept@) =~= kv.push(before[i as int]));
            }
            i = i + 1;
        }
        assert(before.take(before.len() as int) =~= before);
        let ghost full = seq![path@] + without_path(before, path@);
        kept.push_front(path);
        assert(string_views(kept@) =~= full);
        while kept.len() > MAX_RECENT
            invariant
                kept@.len() <= full.len(),
                kept@.len() < full.len() ==> kept@.len() >= MAX_RECENT,
                string_views(kept@) == full.take(kept@.len() as int),
            decreases kept.len(),
        {
            let _dropped = kept.pop_back();
            assert(string_views(kept@) =~= full.take(kept@.len() as int));
        }
        proof {
            if full.len() <= MAX_RECENT {
                assert(full.take(kept@.len() as int) =~= full);
            }
        }
        self.recent = kept;
    }
}

/// After adding a path the store reports it bookmarked; so adding it a
/// second time reports no change.
pub proof fn law_add_then_bookmarked(v: BookmarkView, p: Seq<char>)
    ensures
        has_path(
            if has_path(v.bookmarks, p) {
                v.bookmarks
            } else {
                v.bookmarks.push(p)
            },
            p,
        ),
{
    if !has_path(v.bookmarks, p) {
        let b = v.bookmarks.push(p);
        assert(b[b.len() - 1] == p);
        assert(same_place(b[b.len() - 1], p));
    }
}

/// After removing a path no bookmark names that place, and every bookmark
/// kept names another place.
pub proof fn law_remove_then_not_bookmarked(v: BookmarkView, p: Seq<char>)
    ensures
        !has_path(without_path(v.bookmarks, p), p),
        without_path(v.bookmarks, p).len() <= v.bookmarks.len(),
        forall|i: int|
            0 <= i < without_path(v.bookmarks, p).len() ==> v.bookmarks.contains(
                #[trigger] without_path(v.bookmarks, p)[i],
            ),
{
    broadcast use vstd::seq_lib::group_filter_ensures;

    let kept = without_path(v.bookmarks, p);
    assert forall|i: int| 0 <= i < kept.len() implies v.bookmarks.contains(#[trigger] kept[i]) by {
        assert(kept.contains(kept[i]));
        v.bookmarks.lemma_filter_contains_rev(|q: Seq<char>| !same_place(q, p), kept[i]);
    }
}

/// A visited directory comes first among the recent ones and only there,
/// and the list never holds more than `MAX_RECENT` entries.
pub proof fn law_visit_front(recent: Seq<Seq<char>>, p: Seq<char>)
    ensures
        after_visit(recent, p).len() >= 1,
        after_visit(recent, p)[0] == p,
        after_visit(recent, p).len() <= MAX_RECENT,
        forall|i: int| 1 <= i < after_visit(recent, p).len() ==> !same_place(#[trigger] after_visit(recent, p)[i], p),
{
    broadcast use vstd::seq_lib::group_filter_ensures;

    let rest = without_path(recent, p);
    let full = seq![p] + rest;
    assert forall|i: int| 1 <= i < full.len() implies !same_place(#[trigger] full[i], p) by {
        assert(full[i] == rest[i - 1]);
    }
}

} // verus!
