//! Application state and the decisions taken on each action.
//!
//! `App::process_action` applies an action to the state and answers with a
//! `Step`: whether the bookmark store must be saved, and the outside work
//! (reading a directory, opening a file, copying, renaming, ...) that the
//! runtime must carry out. The runtime reports the outcome of that work back
//! through the matching `App::finish_*` method, which answers with the next
//! `Step`, until a step asks for nothing more.

use vstd::prelude::*;
use crate::bookmarks::{
    BookmarkStore, after_visit, expand_tilde_with, expanded_path, has_path, string_views,
};
use crate::fs::FsError;
use crate::input::{Action, InputHandler, Mode, home_seq, parse_command_with, parsed_as};
use crate::places::home_dir;
use crate::pane::{
    DualView, Pane, PaneView, SortDirection, SortField, active_of, cursor_after_down,
    cursor_after_up, cursor_at_bottom, entry_keys, moved_to, reloaded, selected_path_list,
    selection_toggled, shows, with_active,
};
use crate::order::stably_sorted;
use crate::path::{file_name_of, joined, path_file_name, path_join};
use crate::platform::FileEntry;
use crate::tabs::{Tab, TabManager, TabView, TabsView, after_close, next_index, prev_index, renamed};
use crate::text::{
    begins_with_str, chars_of, concat2, decimal, has_prefix, owned, push_decimal, slice_chars,
    string_of, trim_chars, trimmed,
};

verus! {

/// Clipboard state for yank/cut operations.
#[derive(Debug)]
pub struct Clipboard {
    /// Paths that have been yanked or cut.
    pub paths: Vec<String>,
    /// Whether this is a cut (move) or yank (copy).
    pub is_cut: bool,
}

/// Outside work the runtime carries out for the application.
#[derive(Debug)]
pub enum Request {
    /// Nothing more to do.
    Done,
    /// Read the active pane's directory and hand it to `finish_reload`.
    Reload,
    /// Open the file with the system's default application, then report to
    /// `finish_open`.
    Open { path: String },
    /// Check whether `path` is a directory and read it if so, then report to
    /// `finish_navigate`.
    Navigate { path: String },
    /// As `Navigate`, for a `:cd` command; report to `finish_change_dir`.
    ChangeDir { path: String },
    /// Rename `path` to `new_name`, then report to `finish_rename`.
    Rename { path: String, new_name: String },
    /// Create the file or directory `path`, then report to `finish_create`.
    Create { path: String, name: String, is_dir: bool },
    /// Copy (or, when `is_cut`, move) each source to the target at the same
    /// position, then report each outcome to `finish_transfer`.
    Transfer { sources: Vec<String>, targets: Vec<String>, is_cut: bool },
    /// Move each path to the trash, then report each outcome to
    /// `finish_trash`.
    Trash { paths: Vec<String> },
    /// Build a new tab at `path`, then hand it to `finish_open_tab`.
    OpenTab { path: String },
}

/// What the runtime must do next: save the bookmark store first when asked,
/// then carry out the request.
#[derive(Debug)]
pub struct Step {
    pub save_bookmarks: bool,
    pub request: Request,
}

/// Main application state.
#[derive(Debug)]
pub struct App {
    pub tabs: TabManager,
    pub input: InputHandler,
    pub bookmarks: BookmarkStore,
    pub clipboard: Option<Clipboard>,
    pub message: Option<String>,
    pub should_quit: bool,
    /// The user's home directory, against which `~` in `:cd` arguments is
    /// expanded (none when the environment gave none at start).
    pub home: Option<String>,
}

/// The mathematical content of the application state.
pub struct AppView {
    pub tabs: Seq<TabView>,
    pub active: int,
    pub mode: Mode,
    pub pending: Option<char>,
    pub buffer: Seq<char>,
    pub bookmarks: Seq<Seq<char>>,
    pub recent: Seq<Seq<char>>,
    pub clipboard: Option<(Seq<Seq<char>>, bool)>,
    pub message: Option<Seq<char>>,
    pub should_quit: bool,
    pub home: Option<Seq<char>>,
}

impl View for App {
    type V = AppView;

    open spec fn view(&self) -> AppView {
        AppView {
            tabs: self.tabs@.tabs,
            active: self.tabs@.active,
            mode: self.input.mode,
            pending: self.input.pending_key,
            buffer: self.input.input_buffer@,
            bookmarks: self.bookmarks@.bookmarks,
            recent: self.bookmarks@.recent,
            clipboard: match self.clipboard {
                Some(c) => Some((string_views(c.paths@), c.is_cut)),
                None => None,
            },
            message: match self.message {
                Some(m) => Some(m@),
                None => None,
            },
            should_quit: self.should_quit,
            home: match self.home {
                Some(h) => Some(h@),
                None => None,
            },
        }
    }
}

/// The active pane of the active tab.
pub open spec fn pane_of(v: AppView) -> PaneView {
    active_of(v.tabs[v.active].panes)
}

/// The state with the active pane of the active tab replaced by `p`.
pub open spec fn with_pane(v: AppView, p: PaneView) -> AppView {
    AppView {
        tabs: v.tabs.update(
            v.active,
            TabView { panes: with_active(v.tabs[v.active].panes, p), ..v.tabs[v.active] },
        ),
        ..v
    }
}

/// Putting back the active pane unchanged leaves the state unchanged.
pub proof fn lemma_with_same_pane(v: AppView)
    requires
        0 <= v.active < v.tabs.len(),
    ensures
        with_pane(v, pane_of(v)) == v,
{
    let t = v.tabs[v.active];
    assert(with_active(t.panes, active_of(t.panes)) == t.panes);
    assert(v.tabs.update(v.active, t) =~= v.tabs);
}

/// Replacing the active pane twice keeps only the second replacement, and
/// the active pane is then the replacement.
pub proof fn lemma_with_pane_twice(v: AppView, p: PaneView, q: PaneView)
    requires
        0 <= v.active < v.tabs.len(),
    ensures
        pane_of(with_pane(v, p)) == p,
        with_pane(with_pane(v, p), q) == with_pane(v, q),
        pane_of(with_tab_renamed(v)) == pane_of(v),
{
    let t = v.tabs[v.active];
    assert(with_active(with_active(t.panes, p), q) == with_active(t.panes, q));
    assert(with_pane(v, p).tabs.update(v.active, TabView { panes: with_active(with_active(t.panes, p), q), ..t })
        =~= v.tabs.update(v.active, TabView { panes: with_active(t.panes, q), ..t }));
}

/// The state with the active tab renamed after its active pane.
pub open spec fn with_tab_renamed(v: AppView) -> AppView {
    AppView { tabs: v.tabs.update(v.active, renamed(v.tabs[v.active])), ..v }
}

/// The state with no message.
pub open spec fn quiet(v: AppView) -> AppView {
    AppView { message: None, ..v }
}

/// The state showing message `m`.
pub open spec fn saying(v: AppView, m: Seq<char>) -> AppView {
    AppView { message: Some(m), ..v }
}

/// "`prefix`N item(s)".
pub open spec fn items_message(prefix: Seq<char>, n: nat) -> Seq<char> {
    prefix + decimal(n) + " item(s)"@
}

/// The summary after `ok` successes and `failed` failures of an operation
/// named `op`.
pub open spec fn outcome_message(op: Seq<char>, ok: nat, failed: nat) -> Seq<char> {
    if failed == 0 {
        op + " "@ + decimal(ok) + " item(s)"@
    } else {
        op + " "@ + decimal(ok) + ", failed "@ + decimal(failed)
    }
}

/// The step asks for nothing more.
pub open spec fn finished(st: Step, save: bool) -> bool {
    st.save_bookmarks == save && st.request is Done
}

/// The step asks for the active pane's directory to be read again.
pub open spec fn reloading(st: Step, save: bool) -> bool {
    st.save_bookmarks == save && st.request is Reload
}

/// The paths of the selected entries of the active pane.
pub open spec fn selected_paths_of(v: AppView) -> Seq<Seq<char>> {
    string_views(selected_path_list(pane_of(v)))
}

/// Where a pasted path lands in directory `dir`: under its own name, or
/// `unnamed` when it has none.
pub open spec fn paste_target(dir: Seq<char>, src: Seq<char>) -> Seq<char> {
    joined(
        dir,
        match file_name_of(src) {
            Some(n) => n,
            None => "unnamed"@,
        },
    )
}

/// The state after re-sorting the active pane by `field`/`dir`, where the
/// new entries are those of the active pane of `b`.
pub open spec fn resorted(a: AppView, field: SortField, dir: SortDirection, b: AppView) -> bool {
    let p = pane_of(a);
    &&& b == with_pane(
        a,
        PaneView { entries: pane_of(b).entries, sort_field: field, sort_dir: dir, ..p },
    )
    &&& stably_sorted(pane_of(b).entries, p.entries, entry_keys(p.entries, field, dir, p.dirs_first))
}

/// The state and step after entering or opening the entry under the cursor.
pub open spec fn entry_opened(a: AppView, b: AppView, st: Step) -> bool {
    let p = pane_of(a);
    if 0 <= p.cursor < p.entries.len() {
        let e = p.entries[p.cursor];
        if e.is_dir {
            &&& b == AppView { recent: after_visit(a.recent, e.path@), ..a }
            &&& st.save_bookmarks
            &&& st.request matches Request::Navigate { path } && path@ == e.path@
        } else {
            &&& b == a
            &&& !st.save_bookmarks
            &&& st.request matches Request::Open { path } && path@ == e.path@
        }
    } else {
        b == a && finished(st, false)
    }
}

/// The state and step after a cursor move `q` of the active pane, which in
/// Visual mode also toggles the selection when the cursor moved.
pub open spec fn moved_cursor(a: AppView, visual: bool, cursor: int, b: AppView, st: Step) -> bool {
    let p = pane_of(a);
    let p1 = PaneView { cursor, ..p };
    let p2 = if visual && cursor != p.cursor {
        PaneView { selected: selection_toggled(p1), ..p1 }
    } else {
        p1
    };
    b == with_pane(a, p2) && finished(st, false)
}

/// The state and step after a `:cd` command: the argument, trimmed and with
/// `~` expanded against the application's home directory, is the directory
/// to change to.
pub open spec fn changed_dir(a: AppView, cmd: Seq<char>, b: AppView, st: Step) -> bool {
    &&& b == a
    &&& !st.save_bookmarks
    &&& st.request matches Request::ChangeDir { path } && path@ == expanded_path(trimmed(cmd.skip(3)), a.home)
}

/// What an action does to the state (`a` with the message already cleared)
/// and which step it asks for. A `:` command other than `cd` is handled by
/// `action_outcome` through the action it parses to.
pub open spec fn direct_outcome(a: AppView, act: Action, b: AppView, st: Step) -> bool {
    let p = pane_of(a);
    match act {
        Action::CursorUp => moved_cursor(a, a.mode == Mode::Visual, cursor_after_up(p), b, st),
        Action::CursorDown => moved_cursor(a, a.mode == Mode::Visual, cursor_after_down(p), b, st),
        Action::CursorTop => b == with_pane(a, PaneView { cursor: 0, ..p }) && finished(st, false),
        Action::CursorBottom => b == with_pane(a, PaneView { cursor: cursor_at_bottom(p), ..p })
            && finished(st, false),
        Action::EnterDir => entry_opened(a, b, st),
        Action::OpenFile => entry_opened(a, b, st),
        Action::ParentDir => match crate::path::parent_of(p.path) {
            Some(pp) => {
                &&& b == with_tab_renamed(
                    AppView { recent: after_visit(a.recent, pp), ..with_pane(a, moved_to(p, pp)) },
                )
                &&& reloading(st, true)
            },
            None => b == a && finished(st, false),
        },
        Action::ToggleSelect => {
            let p1 = PaneView { selected: selection_toggled(p), ..p };
            b == with_pane(a, PaneView { cursor: cursor_after_down(p1), ..p1 }) && finished(st, false)
        },
        Action::SelectAll => b == with_pane(
            a,
            PaneView {
                selected: p.selected.union(Set::new(|i: usize| i < p.entries.len())),
                ..p
            },
        ) && finished(st, false),
        Action::ClearSelection => b == with_pane(a, PaneView { selected: Set::empty(), ..p })
            && finished(st, false),
        Action::Yank => {
            let ps = selected_paths_of(a);
            &&& b == if ps.len() == 0 {
                saying(a, "Nothing to yank"@)
            } else {
                AppView {
                    clipboard: Some((ps, false)),
                    message: Some(items_message("Yanked "@, ps.len())),
                    ..a
                }
            }
            &&& finished(st, false)
        },
        Action::Cut => {
            let ps = selected_paths_of(a);
            &&& b == if ps.len() == 0 {
                saying(a, "Nothing to cut"@)
            } else {
                AppView {
                    clipboard: Some((ps, true)),
                    message: Some(items_message("Cut "@, ps.len())),
                    ..a
                }
            }
            &&& finished(st, false)
        },
        Action::Paste => match a.clipboard {
            None => b == saying(a, "Clipboard is empty"@) && finished(st, false),
            Some((paths, cut)) => {
                &&& b == AppView {
                    clipboard: if cut {
                        None
                    } else {
                        a.clipboard
                    },
                    ..a
                }
                &&& !st.save_bookmarks
                &&& st.request matches Request::Transfer { sources, targets, is_cut } && is_cut
                    == cut && string_views(sources@) == paths && string_views(targets@)
                    == paths.map_values(|s: Seq<char>| paste_target(p.path, s))
            },
        },
        Action::Delete => {
            let ps = selected_paths_of(a);
            if ps.len() == 0 {
                b == saying(a, "Nothing selected to delete"@) && finished(st, false)
            } else {
                &&& b == a
                &&& !st.save_bookmarks
                &&& st.request matches Request::Trash { paths } && string_views(paths@) == ps
            }
        },
        Action::RenameStart => {
            &&& b == if 0 <= p.cursor < p.entries.len() {
                AppView { buffer: p.entries[p.cursor].name@, ..a }
            } else {
                a
            }
            &&& finished(st, false)
        },
        Action::RenameConfirm(new_name) => {
            &&& b == a
            &&& if 0 <= p.cursor < p.entries.len() {
                &&& !st.save_bookmarks
                &&& st.request matches Request::Rename { path, new_name: n } && path@
                    == p.entries[p.cursor].path@ && n@ == new_name@
            } else {
                finished(st, false)
            }
        },
        Action::RenameCancel => b == saying(a, "Rename cancelled"@) && finished(st, false),
        Action::CreateFile(name) => {
            &&& b == a
            &&& !st.save_bookmarks
            &&& st.request matches Request::Create { path, name: n, is_dir } && path@ == joined(
                p.path,
                name@,
            ) && n@ == name@ && !is_dir
        },
        Action::CreateDir(name) => {
            &&& b == a
            &&& !st.save_bookmarks
            &&& st.request matches Request::Create { path, name: n, is_dir } && path@ == joined(
                p.path,
                name@,
            ) && n@ == name@ && is_dir
        },
        Action::ToggleHidden => b == with_pane(a, PaneView { show_hidden: !p.show_hidden, ..p })
            && reloading(st, false),
        Action::TogglePane => {
            let t = a.tabs[a.active];
            &&& b == AppView {
                tabs: a.tabs.update(
                    a.active,
                    TabView {
                        panes: DualView { active_right: !t.panes.active_right, ..t.panes },
                        ..t
                    },
                ),
                ..a
            }
            &&& finished(st, false)
        },
        Action::Refresh => b == saying(a, "Refreshed"@) && reloading(st, false),
        Action::SearchUpdate(query) => b == with_pane(a, PaneView { filter: query@, ..p })
            && reloading(st, false),
        Action::SearchCancel => b == with_pane(a, PaneView { filter: Seq::empty(), ..p })
            && reloading(st, false),
        Action::SearchNext => b == with_pane(a, PaneView { cursor: cursor_after_down(p), ..p })
            && finished(st, false),
        Action::SearchPrev => b == with_pane(a, PaneView { cursor: cursor_after_up(p), ..p })
            && finished(st, false),
        Action::NewTab => {
            &&& b == a
            &&& !st.save_bookmarks
            &&& st.request matches Request::OpenTab { path } && path@ == p.path
        },
        Action::CloseTab => {
            &&& b == if a.tabs.len() <= 1 {
                saying(a, "Cannot close last tab"@)
            } else {
                let t = after_close(TabsView { tabs: a.tabs, active: a.active });
                AppView { tabs: t.tabs, active: t.active, ..a }
            }
            &&& finished(st, false)
        },
        Action::NextTab => b == AppView {
            active: next_index(TabsView { tabs: a.tabs, active: a.active }),
            ..a
        } && finished(st, false),
        Action::PrevTab => b == AppView {
            active: prev_index(TabsView { tabs: a.tabs, active: a.active }),
            ..a
        } && finished(st, false),
        Action::BookmarkAdd => if has_path(a.bookmarks, p.path) {
            b == saying(a, "Already bookmarked"@) && finished(st, false)
        } else {
            &&& b == AppView {
                bookmarks: a.bookmarks.push(p.path),
                message: Some("Bookmarked: "@ + p.path),
                ..a
            }
            &&& finished(st, true)
        },
        Action::BookmarkGo(index) => {
            &&& b == a
            &&& if index < a.bookmarks.len() {
                &&& !st.save_bookmarks
                &&& st.request matches Request::Navigate { path } && path@ == a.bookmarks[index as int]
            } else {
                finished(st, false)
            }
        },
        Action::SortByName => resorted(
            a,
            SortField::Name,
            if p.sort_field == SortField::Name && p.sort_dir == SortDirection::Ascending {
                SortDirection::Descending
            } else {
                SortDirection::Ascending
            },
            b,
        ) && finished(st, false),
        Action::SortBySize => resorted(
            a,
            SortField::Size,
            if p.sort_field == SortField::Size && p.sort_dir == SortDirection::Descending {
                SortDirection::Ascending
            } else {
                SortDirection::Descending
            },
            b,
        ) && finished(st, false),
        Action::SortByModified => resorted(a, SortField::Modified, SortDirection::Descending, b)
            && finished(st, false),
        Action::SortByExtension => resorted(a, SortField::Extension, SortDirection::Ascending, b)
            && finished(st, false),
        Action::CommandExecute(cmd) => has_prefix(cmd@, "cd "@) && changed_dir(a, cmd@, b, st),
        Action::EnterVisual => b == with_pane(a, PaneView { selected: selection_toggled(p), ..p })
            && finished(st, false),
        Action::ExitVisual => b == with_pane(a, PaneView { selected: Set::empty(), ..p })
            && finished(st, false),
        Action::Quit => b == AppView { should_quit: true, ..a } && finished(st, false),
        _ => b == a && finished(st, false),
    }
}

/// What `process_action` does: the message is cleared, then the action is
/// applied; a `:` command that is not `cd` acts as the action it parses to
/// (with `~` expanded against the application's home directory).
pub open spec fn action_outcome(a: AppView, act: Action, b: AppView, st: Step) -> bool {
    match act {
        Action::CommandExecute(cmd) => if has_prefix(cmd@, "cd "@) {
            changed_dir(quiet(a), cmd@, b, st)
        } else {
            exists|parsed: Action|
                #[trigger] parsed_as(cmd@, a.home, parsed) && #[trigger] direct_outcome(
                    quiet(a),
                    parsed,
                    b,
                    st,
                )
        },
        _ => direct_outcome(quiet(a), act, b, st),
    }
}

/// An action that `process_action` handles without going through a parsed
/// command.
pub open spec fn action_depth(act: Action) -> nat {
    match act {
        Action::CommandExecute(cmd) => if has_prefix(cmd@, "cd "@) {
            0
        } else {
            1
        },
        _ => 0,
    }
}

impl App {
    /// An application showing `first` as its only tab, with the given
    /// bookmarks and home directory, in Normal mode with nothing on the
    /// clipboard.
    pub fn with_home(first: Tab, bookmarks: BookmarkStore, home: Option<String>) -> (app: Self)
        ensures
            app@ == (AppView {
                tabs: seq![first@],
                active: 0,
                mode: Mode::Normal,
                pending: None,
                buffer: Seq::empty(),
                bookmarks: bookmarks@.bookmarks,
                recent: bookmarks@.recent,
                clipboard: None,
                message: None,
                should_quit: false,
                home: match home {
                    Some(h) => Some(h@),
                    None => None,
                },
            }),
            app.tabs.well_formed(),
    {
        let tabs = TabManager::new(first);
        assert(tabs@.tabs =~= seq![first@]);
        App {
            tabs,
            input: InputHandler::new(),
            bookmarks,
            clipboard: None,
            message: None,
            should_quit: false,
            home,
        }
    }

    /// An application showing `first` as its only tab, with the given
    /// bookmarks, in Normal mode with nothing on the clipboard; its home
    /// directory is the one the environment gives now.
    pub fn new(first: Tab, bookmarks: BookmarkStore) -> (app: Self)
        ensures
            app@ == (AppView {
                tabs: seq![first@],
                active: 0,
                mode: Mode::Normal,
                pending: None,
                buffer: Seq::empty(),
                bookmarks: bookmarks@.bookmarks,
                recent: bookmarks@.recent,
                clipboard: None,
                message: None,
                should_quit: false,
                home: app@.home,
            }),
            app.tabs.well_formed(),
    {
        App::with_home(first, bookmarks, home_dir())
    }

    /// The active pane.
    pub fn active_pane(&self) -> (p: &Pane)
        requires
            self.tabs.well_formed(),
        ensures
            p@ == pane_of(self@),
    {
        self.tabs.active_tab().panes.active()
    }

    /// The active pane, for changing it.
    pub fn active_pane_mut(&mut self) -> (p: &mut Pane)
        requires
            old(self).tabs.well_formed(),
        ensures
            (*p)@ == pane_of(old(self)@),
            final(self)@ == with_pane(old(self)@, (*final(p))@),
            final(self).tabs.well_formed(),
    {
        let t = self.tabs.active_tab_mut();
        t.panes.active_mut()
    }

    /// Apply an action to the state and return the step the runtime must
    /// carry out next. The message is cleared first.
    pub fn process_action(&mut self, action: Action) -> (st: Step)
        requires
            old(self).tabs.well_formed(),
        ensures
            action_outcome(old(self)@, action, final(self)@, st),
            final(self).tabs.well_formed(),
        decreases action_depth(action),
    {
        self.message = None;
        match action {
            Action::CommandExecute(cmd) => {
                if begins_with_str(cmd.as_str(), "cd ") {
                    return self.change_dir_command(cmd.as_str());
                }
                let parsed = match &self.home {
                    Some(h) => parse_command_with(cmd.as_str(), Some(h.as_str())),
                    None => parse_command_with(cmd.as_str(), None),
                };
                let ghost home = old(self)@.home;
                proof {
                    reveal_strlit("cd ");
                    if parsed is CommandExecute {
                        let s2 = parsed->CommandExecute_0;
                        let e = expanded_path(command_arg_of(cmd@), home);
                        assert(s2@ == "cd "@ + e);
                        assert(("cd "@ + e).take(3) =~= "cd "@);
                    }
                }
                let ghost parsed_copy = parsed;
                let st = self.process_action(parsed);
                proof {
                    assert(parsed_as(cmd@, home, parsed_copy));
                    assert(direct_outcome(quiet(old(self)@), parsed_copy, self@, st));
                }
                st
            },
            other => {
                self.apply(other)
            },
        }
    }

    /// The `:cd` command: its argument, trimmed and with `~` expanded, is
    /// the directory to change to.
    fn change_dir_command(&mut self, cmd: &str) -> (st: Step)
        requires
            has_prefix(cmd@, "cd "@),
            old(self).tabs.well_formed(),
        ensures
            changed_dir(old(self)@, cmd@, final(self)@, st),
            final(self).tabs.well_formed(),
    {
        proof {
            reveal_strlit("cd ");
        }
        let chars = chars_of(cmd);
        let rest = slice_chars(&chars, 3, chars.len());
        assert(rest@ =~= cmd@.skip(3));
        let t = trim_chars(&rest);
        let path = match &self.home {
            Some(h) => expand_tilde_with(string_of(&t).as_str(), Some(h.as_str())),
            None => expand_tilde_with(string_of(&t).as_str(), None),
        };
        Step { save_bookmarks: false, request: Request::ChangeDir { path } }
    }

    /// Every action but a `:` command that is not `cd`.
    fn apply(&mut self, action: Action) -> (st: Step)
        requires
            old(self).tabs.well_formed(),
            old(self).message is None,
            action_depth(action) == 0,
        ensures
            direct_outcome(old(self)@, action, final(self)@, st),
            final(self).tabs.well_formed(),
    {
        match action {
            Action::CursorUp => {
                let is_visual = self.input.mode == Mode::Visual;
                let pane = self.active_pane_mut();
                let was = pane.cursor;
                pane.cursor_up();
                if is_visual && was != pane.cursor {
                    pane.toggle_selection();
                }
                done(false)
            },
            Action::CursorDown => {
                let is_visual = self.input.mode == Mode::Visual;
                let pane = self.active_pane_mut();
                let was = pane.cursor;
                pane.cursor_down();
                if is_visual && was != pane.cursor {
                    pane.toggle_selection();
                }
                done(false)
            },
            Action::CursorTop => {
                self.active_pane_mut().cursor_top();
                done(false)
            },
            Action::CursorBottom => {
                self.active_pane_mut().cursor_bottom();
                done(false)
            },
            Action::EnterDir => self.open_entry(),
            Action::OpenFile => self.open_entry(),
            Action::ParentDir => self.parent_dir(),
            Action::ToggleSelect => {
                let pane = self.active_pane_mut();
                pane.toggle_selection();
                pane.cursor_down();
                done(false)
            },
            Action::SelectAll => {
                self.active_pane_mut().select_all();
                done(false)
            },
            Action::ClearSelection => {
                self.active_pane_mut().clear_selection();
                done(false)
            },
            Action::Yank => self.take_selection(false),
            Action::Cut => self.take_selection(true),
            Action::Paste => self.paste(),
            Action::Delete => {
                let paths = self.active_pane().selected_paths();
                if paths.len() == 0 {
                    self.message = Some(owned("Nothing selected to delete"));
                    done(false)
                } else {
                    Step { save_bookmarks: false, request: Request::Trash { paths } }
                }
            },
            Action::RenameStart => {
                if let Some(entry) = self.active_pane().current_entry() {
                    let name = entry.name.clone();
                    self.input.input_buffer = name;
                }
                done(false)
            },
            Action::RenameConfirm(new_name) => {
                if let Some(entry) = self.active_pane().current_entry() {
                    let path = entry.path.clone();
                    Step { save_bookmarks: false, request: Request::Rename { path, new_name } }
                } else {
                    done(false)
                }
            },
            Action::RenameCancel => {
                self.message = Some(owned("Rename cancelled"));
                done(false)
            },
            Action::CreateFile(name) => {
                let path = path_join(self.active_pane().path.as_str(), name.as_str());
                Step { save_bookmarks: false, request: Request::Create { path, name, is_dir: false } }
            },
            Action::CreateDir(name) => {
                let path = path_join(self.active_pane().path.as_str(), name.as_str());
                Step { save_bookmarks: false, request: Request::Create { path, name, is_dir: true } }
            },
            Action::ToggleHidden => {
                self.active_pane_mut().flip_hidden();
                Step { save_bookmarks: false, request: Request::Reload }
            },
            Action::TogglePane => {
                let tab = self.tabs.active_tab_mut();
                tab.panes.toggle_active();
                done(false)
            },
            Action::Refresh => {
                self.message = Some(owned("Refreshed"));
                Step { save_bookmarks: false, request: Request::Reload }
            },
            Action::SearchUpdate(query) => {
                self.active_pane_mut().replace_filter(query);
                Step { save_bookmarks: false, request: Request::Reload }
            },
            Action::SearchCancel => {
                self.active_pane_mut().replace_filter(String::new());
                Step { save_bookmarks: false, request: Request::Reload }
            },
            Action::SearchNext => {
                self.active_pane_mut().cursor_down();
                done(false)
            },
            Action::SearchPrev => {
                self.active_pane_mut().cursor_up();
                done(false)
            },
            Action::NewTab => {
                let path = self.active_pane().path.clone();
                Step { save_bookmarks: false, request: Request::OpenTab { path } }
            },
            Action::CloseTab => {
                if !self.tabs.close_tab() {
                    self.message = Some(owned("Cannot close last tab"));
                }
                done(false)
            },
            Action::NextTab => {
                self.tabs.next_tab();
                done(false)
            },
            Action::PrevTab => {
                self.tabs.prev_tab();
                done(false)
            },
            Action::BookmarkAdd => {
                let path = self.active_pane().path.clone();
                if self.bookmarks.add_bookmark(path.clone()) {
                    self.message = Some(concat2("Bookmarked: ", path.as_str()));
                    done(true)
                } else {
                    self.message = Some(owned("Already bookmarked"));
                    done(false)
                }
            },
            Action::BookmarkGo(index) => {
                if index < self.bookmarks.bookmarks.len() {
                    let path = self.bookmarks.bookmarks[index].clone();
                    Step { save_bookmarks: false, request: Request::Navigate { path } }
                } else {
                    done(false)
                }
            },
            Action::SortByName => {
                let pane = self.active_pane_mut();
                let new_dir = if pane.sort_field == SortField::Name && pane.sort_dir
                    == SortDirection::Ascending {
                    SortDirection::Descending
                } else {
                    SortDirection::Ascending
                };
                pane.set_sort(SortField::Name, new_dir);
                done(false)
            },
            Action::SortBySize => {
                let pane = self.active_pane_mut();
                let new_dir = if pane.sort_field == SortField::Size && pane.sort_dir
                    == SortDirection::Descending {
                    SortDirection::Ascending
                } else {
                    SortDirection::Descending
                };
                pane.set_sort(SortField::Size, new_dir);
                done(false)
            },
            Action::SortByModified => {
                self.active_pane_mut().set_sort(SortField::Modified, SortDirection::Descending);
                done(false)
            },
            Action::SortByExtension => {
                self.active_pane_mut().set_sort(SortField::Extension, SortDirection::Ascending);
                done(false)
            },
            Action::CommandExecute(cmd) => self.change_dir_command(cmd.as_str()),
            Action::EnterVisual => {
                self.active_pane_mut().toggle_selection();
                done(false)
            },
            Action::ExitVisual => {
                self.active_pane_mut().clear_selection();
                done(false)
            },
            Action::Quit => {
                self.should_quit = true;
                done(false)
            },
            _ => done(false),
        }
    }

    /// Enter the directory under the cursor (recording the visit), or open
    /// the file under it.
    fn open_entry(&mut self) -> (st: Step)
        requires
            old(self).tabs.well_formed(),
        ensures
            entry_opened(old(self)@, final(self)@, st),
            final(self).tabs.well_formed(),
    {
        let info = match self.active_pane().current_entry() {
            Some(e) => Some((e.path.clone(), e.is_dir)),
            None => None,
        };
        match info {
            Some((path, is_dir)) => {
                if is_dir {
                    self.bookmarks.visit(path.clone());
                    Step { save_bookmarks: true, request: Request::Navigate { path } }
                } else {
                    Step { save_bookmarks: false, request: Request::Open { path } }
                }
            },
            None => done(false),
        }
    }

    /// Move the active pane to its parent directory, recording the visit and
    /// renaming the tab.
    fn parent_dir(&mut self) -> (st: Step)
        requires
            old(self).tabs.well_formed(),
        ensures
            direct_outcome(old(self)@, Action::ParentDir, final(self)@, st),
            final(self).tabs.well_formed(),
    {
        let ghost a = self@;
        let pane = self.active_pane_mut();
        if pane.move_to_parent() {
            let path = pane.path.clone();
            self.bookmarks.visit(path);
            self.tabs.active_tab_mut().update_name();
            Step { save_bookmarks: true, request: Request::Reload }
        } else {
            proof {
                lemma_with_same_pane(a);
            }
            done(false)
        }
    }

    /// Yank (copy) or cut the selected paths onto the clipboard.
    fn take_selection(&mut self, is_cut: bool) -> (st: Step)
        requires
            old(self).tabs.well_formed(),
        ensures
            direct_outcome(
                old(self)@,
                if is_cut {
                    Action::Cut
                } else {
                    Action::Yank
                },
                final(self)@,
                st,
            ),
            final(self).tabs.well_formed(),
    {
        let paths = self.active_pane().selected_paths();
        if paths.len() == 0 {
            if is_cut {
                self.message = Some(owned("Nothing to cut"));
            } else {
                self.message = Some(owned("Nothing to yank"));
            }
        } else {
            let count = paths.len();
            let mut m = if is_cut {
                owned("Cut ")
            } else {
                owned("Yanked ")
            };
            push_decimal(&mut m, count as u64);
            m.append(" item(s)");
            self.clipboard = Some(Clipboard { paths, is_cut });
            self.message = Some(m);
        }
        done(false)
    }

    /// Hand the clipboard's paths to the runtime for copying or moving into
    /// the active pane's directory. A yanked clipboard stays for further
    /// pastes; a cut one is used up.
    fn paste(&mut self) -> (st: Step)
        requires
            old(self).tabs.well_formed(),
        ensures
            direct_outcome(old(self)@, Action::Paste, final(self)@, st),
            final(self).tabs.well_formed(),
    {
        let mut taken: Option<Clipboard> = None;
        std::mem::swap(&mut taken, &mut self.clipboard);
        match taken {
            None => {
                self.message = Some(owned("Clipboard is empty"));
                done(false)
            },
            Some(clip) => {
                let dir = self.active_pane().path.clone();
                let mut sources: Vec<String> = Vec::new();
                let mut targets: Vec<String> = Vec::new();
                let mut i: usize = 0;
                while i < clip.paths.len()
                    invariant
                        i <= clip.paths.len(),
                        sources@.len() == i,
                        targets@.len() == i,
                        forall|k: int| 0 <= k < i ==> #[trigger] sources@[k] == clip.paths@[k],
                        forall|k: int|
                            0 <= k < i ==> (#[trigger] targets@[k])@ == paste_target(
                                dir@,
                                clip.paths@[k]@,
                            ),
                    decreases clip.paths.len() - i,
                {
                    let src = &clip.paths[i];
                    let name = match path_file_name(src.as_str()) {
                        Some(n) => n,
                        None => owned("unnamed"),
                    };
                    targets.push(path_join(dir.as_str(), name.as_str()));
                    sources.push(src.clone());
                    i = i + 1;
                }
                assert(string_views(sources@) =~= string_views(clip.paths@));
                assert(string_views(targets@) =~= string_views(clip.paths@).map_values(
                    |s: Seq<char>| paste_target(dir@, s),
                ));
                let is_cut = clip.is_cut;
                if !is_cut {
                    self.clipboard = Some(clip);
                }
                Step { save_bookmarks: false, request: Request::Transfer { sources, targets, is_cut } }
            },
        }
    }
}

impl App {
    /// The active pane's directory was read again (`read`): the pane shows
    /// the new listing.
    pub fn finish_reload(&mut self, read: Result<Vec<FileEntry>, FsError>) -> (st: Step)
        requires
            old(self).tabs.well_formed(),
        ensures
            final(self)@ == with_pane(old(self)@, reloaded(pane_of(old(self)@), pane_of(final(self)@).entries)),
            shows(pane_of(old(self)@), pane_of(final(self)@).entries, read),
            finished(st, false),
            final(self).tabs.well_formed(),
    {
        self.active_pane_mut().refresh(read);
        done(false)
    }

    /// The outcome of `Request::Navigate`: when `path` is a directory
    /// (`is_dir`) the active pane moves there and shows `read`, its listing;
    /// either way the tab is renamed after its active pane.
    pub fn finish_navigate(&mut self, path: String, is_dir: bool, read: Result<Vec<FileEntry>, FsError>) -> (st: Step)
        requires
            old(self).tabs.well_formed(),
        ensures
            final(self)@ == with_tab_renamed(
                if is_dir {
                    with_pane(old(self)@, reloaded(moved_to(pane_of(old(self)@), path@), pane_of(final(self)@).entries))
                } else {
                    old(self)@
                },
            ),
            is_dir ==> shows(moved_to(pane_of(old(self)@), path@), pane_of(final(self)@).entries, read),
            finished(st, false),
            final(self).tabs.well_formed(),
    {
        let ghost a = self@;
        let ghost p = pane_of(a);
        let ghost target = path@;
        self.active_pane_mut().move_to(path, is_dir);
        if is_dir {
            proof {
                lemma_with_pane_twice(a, moved_to(p, target), moved_to(p, target));
            }
            self.active_pane_mut().refresh(read);
            proof {
                lemma_with_pane_twice(a, moved_to(p, target), pane_of(self@));
            }
        } else {
            proof {
                lemma_with_same_pane(a);
            }
        }
        let ghost a2 = self@;
        self.tabs.active_tab_mut().update_name();
        proof {
            lemma_with_pane_twice(a2, pane_of(a2), pane_of(a2));
        }
        done(false)
    }

    /// The outcome of `Request::ChangeDir`: as `finish_navigate` when `path`
    /// is a directory; otherwise the state only reports it.
    pub fn finish_change_dir(&mut self, path: String, is_dir: bool, read: Result<Vec<FileEntry>, FsError>) -> (st: Step)
        requires
            old(self).tabs.well_formed(),
        ensures
            is_dir ==> final(self)@ == with_tab_renamed(
                with_pane(old(self)@, reloaded(moved_to(pane_of(old(self)@), path@), pane_of(final(self)@).entries)),
            ),
            is_dir ==> shows(moved_to(pane_of(old(self)@), path@), pane_of(final(self)@).entries, read),
            !is_dir ==> final(self)@ == saying(old(self)@, "Not a directory: "@ + path@),
            finished(st, false),
            final(self).tabs.well_formed(),
    {
        if is_dir {
            self.finish_navigate(path, is_dir, read)
        } else {
            self.message = Some(concat2("Not a directory: ", path.as_str()));
            done(false)
        }
    }

    /// The outcome of `Request::Open` for `path` (`Err` holds the error's
    /// text).
    pub fn finish_open(&mut self, path: &str, result: Result<(), String>) -> (st: Step)
        ensures
            final(self)@ == saying(
                old(self)@,
                match result {
                    Ok(_) => "Opened: "@ + match file_name_of(path@) {
                        Some(n) => n,
                        None => "?"@,
                    },
                    Err(e) => "Open failed: "@ + e@,
                },
            ),
            finished(st, false),
            final(self).tabs == old(self).tabs,
    {
        match result {
            Ok(()) => {
                let name = match path_file_name(path) {
                    Some(n) => n,
                    None => owned("?"),
                };
                self.message = Some(concat2("Opened: ", name.as_str()));
            },
            Err(e) => {
                self.message = Some(concat2("Open failed: ", e.as_str()));
            },
        }
        done(false)
    }

    /// The outcome of `Request::Rename` (`Err` holds the error's text): on
    /// success the directory is read again.
    pub fn finish_rename(&mut self, new_name: &str, result: Result<(), String>) -> (st: Step)
        ensures
            final(self)@ == saying(
                old(self)@,
                match result {
                    Ok(_) => "Renamed to "@ + new_name@,
                    Err(e) => "Rename failed: "@ + e@,
                },
            ),
            st.save_bookmarks == false,
            st.request is Reload <==> result is Ok,
            st.request is Done <==> result is Err,
            final(self).tabs == old(self).tabs,
    {
        match result {
            Ok(()) => {
                self.message = Some(concat2("Renamed to ", new_name));
                Step { save_bookmarks: false, request: Request::Reload }
            },
            Err(e) => {
                self.message = Some(concat2("Rename failed: ", e.as_str()));
                done(false)
            },
        }
    }

    /// The outcome of `Request::Create` of `name` (`Err` holds the error's
    /// text): on success the directory is read again.
    pub fn finish_create(&mut self, name: &str, is_dir: bool, result: Result<(), String>) -> (st: Step)
        ensures
            final(self)@ == saying(
                old(self)@,
                match result {
                    Ok(_) => if is_dir {
                        "Created directory: "@ + name@
                    } else {
                        "Created file: "@ + name@
                    },
                    Err(e) => "Create failed: "@ + e@,
                },
            ),
            st.save_bookmarks == false,
            st.request is Reload <==> result is Ok,
            st.request is Done <==> result is Err,
            final(self).tabs == old(self).tabs,
    {
        match result {
            Ok(()) => {
                if is_dir {
                    self.message = Some(concat2("Created directory: ", name));
                } else {
                    self.message = Some(concat2("Created file: ", name));
                }
                Step { save_bookmarks: false, request: Request::Reload }
            },
            Err(e) => {
                self.message = Some(concat2("Create failed: ", e.as_str()));
                done(false)
            },
        }
    }

    /// The outcome of `Request::Transfer`: one success flag per path. The
    /// state reports how many were copied (or moved) and how many failed;
    /// the directory is then read again.
    pub fn finish_transfer(&mut self, is_cut: bool, results: &Vec<bool>) -> (st: Step)
        ensures
            final(self)@ == saying(
                old(self)@,
                outcome_message(
                    if is_cut {
                        "Moved"@
                    } else {
                        "Copied"@
                    },
                    count_ok(results@),
                    (results@.len() - count_ok(results@)) as nat,
                ),
            ),
            reloading(st, false),
            final(self).tabs == old(self).tabs,
    {
        let op = if is_cut {
            owned("Moved")
        } else {
            owned("Copied")
        };
        self.message = Some(summary(op.as_str(), results));
        Step { save_bookmarks: false, request: Request::Reload }
    }

    /// The outcome of `Request::Trash`: one success flag per path. The state
    /// reports how many were trashed and how many failed; the directory is
    /// then read again.
    pub fn finish_trash(&mut self, results: &Vec<bool>) -> (st: Step)
        ensures
            final(self)@ == saying(
                old(self)@,
                outcome_message("Trashed"@, count_ok(results@), (results@.len() - count_ok(results@)) as nat),
            ),
            reloading(st, false),
            final(self).tabs == old(self).tabs,
    {
        self.message = Some(summary("Trashed", results));
        Step { save_bookmarks: false, request: Request::Reload }
    }

    /// The outcome of `Request::OpenTab`: the new tab is opened after the
    /// others and becomes active.
    pub fn finish_open_tab(&mut self, tab: Tab) -> (st: Step)
        ensures
            final(self)@ == (AppView {
                tabs: old(self)@.tabs.push(tab@),
                active: old(self)@.tabs.len() as int,
                ..old(self)@
            }),
            finished(st, false),
            final(self).tabs.well_formed(),
    {
        self.tabs.open_tab(tab);
        done(false)
    }
}

/// The number of successes among the outcomes.
pub open spec fn count_ok(s: Seq<bool>) -> nat
    decreases s.len(),
{
    if s.len() == 0 {
        0
    } else {
        count_ok(s.drop_last()) + if s.last() {
            1nat
        } else {
            0nat
        }
    }
}

/// "`op` N item(s)" when all succeeded, else "`op` N, failed M".
fn summary(op: &str, results: &Vec<bool>) -> (m: String)
    ensures
        m@ == outcome_message(op@, count_ok(results@), (results@.len() - count_ok(results@)) as nat),
{
    let mut ok: u64 = 0;
    let mut failed: u64 = 0;
    let mut i: usize = 0;
    while i < results.len()
        invariant
            i <= results.len(),
            ok == count_ok(results@.take(i as int)),
            ok + failed == i,
        decreases results.len() - i,
    {
        assert(results@.take(i + 1).drop_last() =~= results@.take(i as int));
        if results[i] {
            ok = ok + 1;
        } else {
            failed = failed + 1;
        }
        i = i + 1;
    }
    assert(results@.take(results.len() as int) =~= results@);
    let mut m = owned(op);
    m.append(" ");
    push_decimal(&mut m, ok);
    if failed == 0 {
        m.append(" item(s)");
    } else {
        m.append(", failed ");
        push_decimal(&mut m, failed);
    }
    m
}

/// A step with nothing more to do.
fn done(save_bookmarks: bool) -> (st: Step)
    ensures
        finished(st, save_bookmarks),
{
    Step { save_bookmarks, request: Request::Done }
}

/// The argument of a `:` command after trimming.
pub open spec fn command_arg_of(cmd: Seq<char>) -> Seq<char> {
    crate::input::command_arg(trimmed(cmd))
}

/// Yanking a selection and then pasting asks to copy exactly the yanked
/// paths into the current directory, and keeps them on the clipboard for
/// another paste.
pub proof fn law_yank_then_paste(a: AppView, b: AppView, st1: Step, c: AppView, st2: Step)
    requires
        selected_paths_of(a).len() > 0,
        action_outcome(a, Action::Yank, b, st1),
        action_outcome(b, Action::Paste, c, st2),
    ensures
        c.clipboard == Some((selected_paths_of(a), false)),
        st2.request matches Request::Transfer { sources, targets, is_cut } && !is_cut && string_views(
            sources@,
        ) == selected_paths_of(a) && string_views(targets@) == selected_paths_of(a).map_values(
            |s: Seq<char>| paste_target(pane_of(a).path, s),
        ),
{
    assert(pane_of(quiet(a)) == pane_of(a));
    assert(pane_of(quiet(b)) == pane_of(a));
}

/// Cutting a selection and then pasting asks to move exactly the cut paths
/// into the current directory, and empties the clipboard.
pub proof fn law_cut_then_paste(a: AppView, b: AppView, st1: Step, c: AppView, st2: Step)
    requires
        selected_paths_of(a).len() > 0,
        action_outcome(a, Action::Cut, b, st1),
        action_outcome(b, Action::Paste, c, st2),
    ensures
        c.clipboard is None,
        st2.request matches Request::Transfer { sources, targets, is_cut } && is_cut && string_views(
            sources@,
        ) == selected_paths_of(a),
{
    assert(pane_of(quiet(a)) == pane_of(a));
    assert(pane_of(quiet(b)) == pane_of(a));
}

/// Switching to the next tab and back returns to the tab one started on,
/// leaving the tabs themselves as they were.
pub proof fn law_next_then_prev_tab(a: AppView, b: AppView, st1: Step, c: AppView, st2: Step)
    requires
        a.tabs.len() > 0,
        0 <= a.active < a.tabs.len(),
        action_outcome(a, Action::NextTab, b, st1),
        action_outcome(b, Action::PrevTab, c, st2),
    ensures
        c.active == a.active,
        c.tabs == a.tabs,
{
    crate::tabs::law_next_then_prev(TabsView { tabs: a.tabs, active: a.active });
    crate::tabs::law_switching_keeps_tabs(TabsView { tabs: a.tabs, active: a.active });
}

/// `:cd` expands `~` against the application's home directory. With a home
/// `h`, `cd ~/x` asks to change to `h` joined with `x` and `cd ~` to `h`
/// itself; an argument not starting with `~` is taken as it is. The
/// argument is trimmed first, nothing is saved, and the state only loses
/// its message.
pub proof fn law_cd_expands_home(a: AppView, cmd: String, b: AppView, st: Step, h: Seq<char>, x: Seq<char>)
    requires
        action_outcome(a, Action::CommandExecute(cmd), b, st),
        has_prefix(cmd@, "cd "@),
        a.home == Some(h),
    ensures
        b == quiet(a),
        !st.save_bookmarks,
        st.request is ChangeDir,
        trimmed(cmd@.skip(3)) == seq!['~', '/'] + x ==> st.request->ChangeDir_path@ == joined(h, x),
        trimmed(cmd@.skip(3)) == seq!['~'] ==> st.request->ChangeDir_path@ == h,
        trimmed(cmd@.skip(3)).len() == 0 || trimmed(cmd@.skip(3))[0] != '~'
            ==> st.request->ChangeDir_path@ == trimmed(cmd@.skip(3)),
{
    let t = trimmed(cmd@.skip(3));
    if t == seq!['~', '/'] + x {
        assert(t.take(2) =~= seq!['~', '/']);
        assert(t.skip(2) =~= x);
    }
    if t.len() == 0 || t[0] != '~' {
        assert(!has_prefix(t, seq!['~', '/'])) by {
            if has_prefix(t, seq!['~', '/']) {
                assert(t.take(2)[0] == t[0]);
            }
        }
        assert(t != seq!['~']) by {
            if t == seq!['~'] {
                assert(t[0] == '~');
            }
        }
    }
}

} // verus!
