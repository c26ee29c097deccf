//! Keyboard input handling with vim-style modal navigation.
//!
//! Modes: Normal (default), Visual (multi-select), and the text-entry modes
//! Command (`:` prefix), Search (`/`), Rename and Create. Key sequences like
//! `gg` and `dd` are supported via a pending key.

use vstd::prelude::*;
use crate::bookmarks::{expand_tilde_with, expanded_path};
use crate::places::home_dir;
use crate::text::{
    chars_equal, chars_of, concat2, find_char, index_of_char, lemma_index_of_char, pop_char,
    push_char, slice_chars, string_of, trim_chars, trimmed,
};

verus! {

/// Input mode for the file manager.
#[derive(Debug, Clone, Copy, PartialEq, Eq, Structural)]
pub enum Mode {
    /// Default mode: navigate files, single operations.
    Normal,
    /// Multi-select mode: extend selection with movement.
    Visual,
    /// Command input mode (`:` prefix).
    Command,
    /// Incremental search mode (`/` prefix).
    Search,
    /// Rename mode: editing the current file name.
    Rename,
    /// Create mode: typing a new file/dir name.
    Create { is_dir: bool },
}

/// Actions that input events can produce.
#[derive(Debug, Clone)]
pub enum Action {
    // Navigation
    CursorUp,
    CursorDown,
    CursorTop,
    CursorBottom,
    EnterDir,
    ParentDir,
    OpenFile,
    // Selection
    ToggleSelect,
    SelectAll,
    ClearSelection,
    // File operations
    Yank,
    Cut,
    Paste,
    Delete,
    RenameStart,
    RenameConfirm(String),
    RenameCancel,
    CreateFile(String),
    CreateDir(String),
    CreateStart { is_dir: bool },
    // View
    ToggleHidden,
    TogglePane,
    Refresh,
    // Search
    SearchStart,
    SearchUpdate(String),
    SearchConfirm,
    SearchCancel,
    SearchNext,
    SearchPrev,
    // Tabs
    NewTab,
    CloseTab,
    NextTab,
    PrevTab,
    // Bookmarks
    BookmarkAdd,
    BookmarkGo(usize),
    // Sort
    SortByName,
    SortBySize,
    SortByModified,
    SortByExtension,
    // Command
    CommandStart,
    CommandExecute(String),
    CommandCancel,
    // Mode switching
    EnterVisual,
    ExitVisual,
    // App
    Quit,
    /// No effect.
    Nothing,
}

/// The key of a key press, as far as the input handler tells keys apart.
#[derive(Debug, Clone, Copy, PartialEq, Eq, Structural)]
pub enum KeyCode {
    Char(char),
    Enter,
    Esc,
    Backspace,
    Tab,
    Up,
    Down,
    Left,
    Right,
    /// Any other key.
    Other,
}

/// A key press: the key and whether Control was held.
#[derive(Debug, Clone, Copy, PartialEq, Eq, Structural)]
pub struct KeyEvent {
    pub code: KeyCode,
    pub control: bool,
}

/// Outcome of a key press in Normal mode: (mode, pending key, whether the
/// input buffer is cleared, action).
pub open spec fn normal_outcome(pending: Option<char>, key: KeyEvent) -> (Mode, Option<char>, bool, Action) {
    match pending {
        Some(p) => (
            Mode::Normal,
            None,
            false,
            if p == 'g' && key.code == KeyCode::Char('g') {
                Action::CursorTop
            } else if p == 'd' && key.code == KeyCode::Char('d') {
                Action::Delete
            } else {
                Action::Nothing
            },
        ),
        None => match key.code {
            KeyCode::Char(c) => char_outcome(c, key.control),
            KeyCode::Down => (Mode::Normal, None, false, Action::CursorDown),
            KeyCode::Up => (Mode::Normal, None, false, Action::CursorUp),
            KeyCode::Right => (Mode::Normal, None, false, Action::EnterDir),
            KeyCode::Left => (Mode::Normal, None, false, Action::ParentDir),
            KeyCode::Enter => (Mode::Normal, None, false, Action::OpenFile),
            KeyCode::Tab => (Mode::Normal, None, false, Action::TogglePane),
            _ => (Mode::Normal, None, false, Action::Nothing),
        },
    }
}

/// A Normal-mode outcome that only produces an action.
pub open spec fn plain(a: Action) -> (Mode, Option<char>, bool, Action) {
    (Mode::Normal, None, false, a)
}

/// Outcome of a character key in Normal mode with nothing pending.
pub open spec fn char_outcome(c: char, control: bool) -> (Mode, Option<char>, bool, Action) {
    if c == 'j' {
        plain(Action::CursorDown)
    } else if c == 'k' {
        plain(Action::CursorUp)
    } else if c == 'l' {
        plain(Action::EnterDir)
    } else if c == 'h' {
        plain(Action::ParentDir)
    } else if c == 'G' {
        plain(Action::CursorBottom)
    } else if c == 'g' {
        (Mode::Normal, Some('g'), false, Action::Nothing)
    } else if c == ' ' {
        plain(Action::ToggleSelect)
    } else if c == 'v' {
        (Mode::Visual, None, false, Action::EnterVisual)
    } else if c == 'y' {
        plain(Action::Yank)
    } else if c == 'd' {
        (Mode::Normal, Some('d'), false, Action::Nothing)
    } else if c == 'p' {
        plain(Action::Paste)
    } else if c == 'r' {
        (Mode::Rename, None, true, Action::RenameStart)
    } else if c == 'o' {
        (Mode::Create { is_dir: false }, None, true, Action::CreateStart { is_dir: false })
    } else if c == 'O' {
        (Mode::Create { is_dir: true }, None, true, Action::CreateStart { is_dir: true })
    } else if c == '.' {
        plain(Action::ToggleHidden)
    } else if c == 'R' {
        plain(Action::Refresh)
    } else if c == '/' {
        (Mode::Search, None, true, Action::SearchStart)
    } else if c == 'n' {
        plain(Action::SearchNext)
    } else if c == 'N' {
        plain(Action::SearchPrev)
    } else if c == 't' && control {
        plain(Action::NewTab)
    } else if c == 'w' && control {
        plain(Action::CloseTab)
    } else if c == ']' && control {
        plain(Action::NextTab)
    } else if c == '[' && control {
        plain(Action::PrevTab)
    } else if c == 'b' {
        plain(Action::BookmarkAdd)
    } else if c == 's' {
        plain(Action::SortByName)
    } else if c == 'S' {
        plain(Action::SortBySize)
    } else if c == ':' {
        (Mode::Command, None, true, Action::CommandStart)
    } else if c == 'q' {
        plain(Action::Quit)
    } else if c == 'c' && control {
        plain(Action::Quit)
    } else {
        plain(Action::Nothing)
    }
}

/// Outcome of a key press in Visual mode: (mode, action).
pub open spec fn visual_outcome(key: KeyEvent) -> (Mode, Action) {
    match key.code {
        KeyCode::Char('j') | KeyCode::Down => (Mode::Visual, Action::CursorDown),
        KeyCode::Char('k') | KeyCode::Up => (Mode::Visual, Action::CursorUp),
        KeyCode::Char('y') => (Mode::Normal, Action::Yank),
        KeyCode::Char('d') => (Mode::Normal, Action::Cut),
        KeyCode::Esc => (Mode::Normal, Action::ExitVisual),
        _ => (Mode::Visual, Action::Nothing),
    }
}

/// A key press in a text-entry mode: Esc cancels, Enter confirms with the
/// typed text, Backspace and characters edit the buffer (reported as a
/// search update in Search mode).
pub open spec fn text_outcome(
    mode: Mode,
    buf: Seq<char>,
    key: KeyEvent,
    mode2: Mode,
    buf2: Seq<char>,
    r: Action,
) -> bool {
    match key.code {
        KeyCode::Esc => {
            &&& mode2 == Mode::Normal
            &&& buf2.len() == 0
            &&& r == match mode {
                Mode::Search => Action::SearchCancel,
                Mode::Command => Action::CommandCancel,
                Mode::Rename => Action::RenameCancel,
                _ => Action::Nothing,
            }
        },
        KeyCode::Enter => {
            &&& mode2 == Mode::Normal
            &&& buf2.len() == 0
            &&& match mode {
                Mode::Search => r == Action::SearchConfirm,
                Mode::Command => r matches Action::CommandExecute(t) && t@ == buf,
                Mode::Rename => r matches Action::RenameConfirm(t) && t@ == buf,
                Mode::Create { is_dir: true } => r matches Action::CreateDir(t) && t@ == buf,
                Mode::Create { is_dir: false } => r matches Action::CreateFile(t) && t@ == buf,
                _ => r == Action::Nothing,
            }
        },
        KeyCode::Backspace => {
            &&& mode2 == mode
            &&& buf2 == if buf.len() > 0 {
                buf.drop_last()
            } else {
                buf
            }
            &&& if mode == Mode::Search {
                r matches Action::SearchUpdate(t) && t@ == buf2
            } else {
                r == Action::Nothing
            }
        },
        KeyCode::Char(c) => {
            &&& mode2 == mode
            &&& buf2 == buf.push(c)
            &&& if mode == Mode::Search {
                r matches Action::SearchUpdate(t) && t@ == buf2
            } else {
                r == Action::Nothing
            }
        },
        _ => mode2 == mode && buf2 == buf && r == Action::Nothing,
    }
}

/// The effect of one key press: from (mode, pending key, input buffer) to
/// (mode, pending key, input buffer) and the action produced.
pub open spec fn key_handled(
    mode: Mode,
    pending: Option<char>,
    buf: Seq<char>,
    key: KeyEvent,
    mode2: Mode,
    pending2: Option<char>,
    buf2: Seq<char>,
    r: Action,
) -> bool {
    match mode {
        Mode::Normal => {
            let (m, p, clear, a) = normal_outcome(pending, key);
            &&& mode2 == m
            &&& pending2 == p
            &&& buf2 == if clear {
                Seq::empty()
            } else {
                buf
            }
            &&& r == a
        },
        Mode::Visual => {
            let (m, a) = visual_outcome(key);
            &&& mode2 == m
            &&& pending2 == pending
            &&& buf2 == buf
            &&& r == a
        },
        _ => pending2 == pending && text_outcome(mode, buf, key, mode2, buf2, r),
    }
}

/// Input handler with mode and pending key state.
#[derive(Debug)]
pub struct InputHandler {
    pub mode: Mode,
    /// Pending key for multi-key sequences (e.g., `g` in `gg`).
    pub pending_key: Option<char>,
    /// Text buffer for command/search/rename/create modes.
    pub input_buffer: String,
}

impl InputHandler {
    /// A handler in Normal mode, with nothing pending and an empty buffer.
    pub fn new() -> (h: Self)
        ensures
            h.mode == Mode::Normal,
            h.pending_key is None,
            h.input_buffer@ == Seq::<char>::empty(),
    {
        InputHandler { mode: Mode::Normal, pending_key: None, input_buffer: String::new() }
    }

    /// Process a key press and return the resulting action.
    pub fn handle_key(&mut self, key: KeyEvent) -> (r: Action)
        ensures
            key_handled(
                old(self).mode,
                old(self).pending_key,
                old(self).input_buffer@,
                key,
                final(self).mode,
                final(self).pending_key,
                final(self).input_buffer@,
                r,
            ),
    {
        match self.mode {
            Mode::Normal => self.handle_normal(key),
            Mode::Visual => self.handle_visual(key),
            Mode::Command => self.handle_text_input(key, Mode::Command),
            Mode::Search => self.handle_text_input(key, Mode::Search),
            Mode::Rename => self.handle_text_input(key, Mode::Rename),
            Mode::Create { .. } => {
                let m = self.mode;
                self.handle_text_input(key, m)
            },
        }
    }

    fn handle_normal(&mut self, key: KeyEvent) -> (r: Action)
        requires
            old(self).mode == Mode::Normal,
        ensures
            ({
                let (m, p, clear, a) = normal_outcome(old(self).pending_key, key);
                &&& final(self).mode == m
                &&& final(self).pending_key == p
                &&& final(self).input_buffer@ == if clear {
                    Seq::empty()
                } else {
                    old(self).input_buffer@
                }
                &&& r == a
            }),
    {
        if let Some(pending) = self.pending_key {
            self.pending_key = None;
            return match (pending, key.code) {
                ('g', KeyCode::Char('g')) => Action::CursorTop,
                ('d', KeyCode::Char('d')) => Action::Delete,
                _ => Action::Nothing,
            };
        }
        let control = key.control;
        match key.code {
            KeyCode::Char(c) => self.handle_normal_char(c, control),
            KeyCode::Down => Action::CursorDown,
            KeyCode::Up => Action::CursorUp,
            KeyCode::Right => Action::EnterDir,
            KeyCode::Left => Action::ParentDir,
            KeyCode::Enter => Action::OpenFile,
            KeyCode::Tab => Action::TogglePane,
            _ => Action::Nothing,
        }
    }

    fn handle_normal_char(&mut self, c: char, control: bool) -> (r: Action)
        requires
            old(self).mode == Mode::Normal,
            old(self).pending_key is None,
        ensures
            ({
                let (m, p, clear, a) = char_outcome(c, control);
                &&& final(self).mode == m
                &&& final(self).pending_key == p
                &&& final(self).input_buffer@ == if clear {
                    Seq::empty()
                } else {
                    old(self).input_buffer@
                }
                &&& r == a
            }),
    {
        if c == 'j' {
            Action::CursorDown
        } else if c == 'k' {
            Action::CursorUp
        } else if c == 'l' {
            Action::EnterDir
        } else if c == 'h' {
            Action::ParentDir
        } else if c == 'G' {
            Action::CursorBottom
        } else if c == 'g' {
            self.pending_key = Some('g');
            Action::Nothing
        } else if c == ' ' {
            Action::ToggleSelect
        } else if c == 'v' {
            self.mode = Mode::Visual;
            Action::EnterVisual
        } else if c == 'y' {
            Action::Yank
        } else if c == 'd' {
            self.pending_key = Some('d');
            Action::Nothing
        } else if c == 'p' {
            Action::Paste
        } else if c == 'r' {
            self.mode = Mode::Rename;
            self.input_buffer = String::new();
            Action::RenameStart
        } else if c == 'o' {
            self.mode = Mode::Create { is_dir: false };
            self.input_buffer = String::new();
            Action::CreateStart { is_dir: false }
        } else if c == 'O' {
            self.mode = Mode::Create { is_dir: true };
            self.input_buffer = String::new();
            Action::CreateStart { is_dir: true }
        } else if c == '.' {
            Action::ToggleHidden
        } else if c == 'R' {
            Action::Refresh
        } else if c == '/' {
            self.mode = Mode::Search;
            self.input_buffer = String::new();
            Action::SearchStart
        } else if c == 'n' {
            Action::SearchNext
        } else if c == 'N' {
            Action::SearchPrev
        } else if c == 't' && control {
            Action::NewTab
        } else if c == 'w' && control {
            Action::CloseTab
        } else if c == ']' && control {
            Action::NextTab
        } else if c == '[' && control {
            Action::PrevTab
        } else if c == 'b' {
            Action::BookmarkAdd
        } else if c == 's' {
            Action::SortByName
        } else if c == 'S' {
            Action::SortBySize
        } else if c == ':' {
            self.mode = Mode::Command;
            self.input_buffer = String::new();
            Action::CommandStart
        } else if c == 'q' {
            Action::Quit
        } else if c == 'c' && control {
            Action::Quit
        } else {
            Action::Nothing
        }
    }

    fn handle_visual(&mut self, key: KeyEvent) -> (r: Action)
        requires
            old(self).mode == Mode::Visual,
        ensures
            ({
                let (m, a) = visual_outcome(key);
                &&& final(self).mode == m
                &&& r == a
            }),
            final(self).pending_key == old(self).pending_key,
            final(self).input_buffer == old(self).input_buffer,
    {
        match key.code {
            KeyCode::Char('j') | KeyCode::Down => Action::CursorDown,
            KeyCode::Char('k') | KeyCode::Up => Action::CursorUp,
            KeyCode::Char('y') => {
                self.mode = Mode::Normal;
                Action::Yank
            },
            KeyCode::Char('d') => {
                self.mode = Mode::Normal;
                Action::Cut
            },
            KeyCode::Esc => {
                self.mode = Mode::Normal;
                Action::ExitVisual
            },
            _ => Action::Nothing,
        }
    }

    fn handle_text_input(&mut self, key: KeyEvent, mode: Mode) -> (r: Action)
        requires
            old(self).mode == mode,
        ensures
            text_outcome(mode, old(self).input_buffer@, key, final(self).mode, final(self).input_buffer@, r),
            final(self).pending_key == old(self).pending_key,
    {
        match key.code {
            KeyCode::Esc => {
                self.mode = Mode::Normal;
                self.input_buffer = String::new();
                match mode {
                    Mode::Search => Action::SearchCancel,
                    Mode::Command => Action::CommandCancel,
                    Mode::Rename => Action::RenameCancel,
                    Mode::Create { .. } => Action::Nothing,
                    _ => Action::Nothing,
                }
            },
            KeyCode::Enter => {
                let text = self.input_buffer.clone();
                self.mode = Mode::Normal;
                self.input_buffer = String::new();
                match mode {
                    Mode::Search => Action::SearchConfirm,
                    Mode::Command => Action::CommandExecute(text),
                    Mode::Rename => Action::RenameConfirm(text),
                    Mode::Create { is_dir: true } => Action::CreateDir(text),
                    Mode::Create { is_dir: false } => Action::CreateFile(text),
                    _ => Action::Nothing,
                }
            },
            KeyCode::Backspace => {
                let _ = pop_char(&mut self.input_buffer);
                if mode == Mode::Search {
                    Action::SearchUpdate(self.input_buffer.clone())
                } else {
                    Action::Nothing
                }
            },
            KeyCode::Char(c) => {
                push_char(&mut self.input_buffer, c);
                if mode == Mode::Search {
                    Action::SearchUpdate(self.input_buffer.clone())
                } else {
                    Action::Nothing
                }
            },
            _ => Action::Nothing,
        }
    }
}

impl Default for InputHandler {
    fn default() -> (h: Self)
        ensures
            h.mode == Mode::Normal,
            h.pending_key is None,
            h.input_buffer@ == Seq::<char>::empty(),
    {
        Self::new()
    }
}

/// The command word: the characters before the first space.
pub open spec fn command_word(s: Seq<char>) -> Seq<char> {
    s.take(index_of_char(s, ' '))
}

/// The command argument: the characters after the first space, or nothing.
pub open spec fn command_arg(s: Seq<char>) -> Seq<char> {
    let i = index_of_char(s, ' ');
    if i < s.len() {
        s.skip(i + 1)
    } else {
        Seq::empty()
    }
}

/// The action a `:` command stands for, with `~` in `cd` arguments expanded
/// against `home`.
pub open spec fn parsed_as(cmd: Seq<char>, home: Option<Seq<char>>, r: Action) -> bool {
    let t = trimmed(cmd);
    let w = command_word(t);
    let a = command_arg(t);
    if w == "q"@ || w == "quit"@ {
        r == Action::Quit
    } else if w == "cd"@ {
        if a.len() == 0 {
            r == Action::Nothing
        } else {
            r matches Action::CommandExecute(s) && s@ == "cd "@ + expanded_path(a, home)
        }
    } else if w == "mkdir"@ {
        if a.len() == 0 {
            r == Action::Nothing
        } else {
            r matches Action::CreateDir(s) && s@ == a
        }
    } else if w == "touch"@ {
        if a.len() == 0 {
            r == Action::Nothing
        } else {
            r matches Action::CreateFile(s) && s@ == a
        }
    } else if w == "sort"@ {
        r == if a == "name"@ {
            Action::SortByName
        } else if a == "size"@ {
            Action::SortBySize
        } else if a == "modified"@ || a == "date"@ {
            Action::SortByModified
        } else if a == "ext"@ || a == "type"@ {
            Action::SortByExtension
        } else {
            Action::Nothing
        }
    } else if w == "bookmark"@ || w == "bm"@ {
        r == Action::BookmarkAdd
    } else if w == "refresh"@ {
        r == Action::Refresh
    } else {
        r == Action::Nothing
    }
}

/// The home directory as a plain value.
pub open spec fn home_seq(home: Option<&str>) -> Option<Seq<char>> {
    match home {
        Some(h) => Some(h@),
        None => None,
    }
}

/// Parse a command string (from `:` mode) into an action, with `~` in `cd`
/// arguments expanded against `home`.
pub fn parse_command_with(cmd: &str, home: Option<&str>) -> (r: Action)
    ensures
        parsed_as(cmd@, home_seq(home), r),
{
    let t = trim_chars(&chars_of(cmd));
    let sp = find_char(&t, ' ');
    proof {
        lemma_index_of_char(t@, ' ');
    }
    let word = slice_chars(&t, 0, sp);
    let arg = if sp < t.len() {
        slice_chars(&t, sp + 1, t.len())
    } else {
        Vec::new()
    };
    assert(word@ =~= command_word(t@));
    assert(arg@ =~= command_arg(t@));
    let r = if chars_equal(&word, "q") || chars_equal(&word, "quit") {
        Action::Quit
    } else if chars_equal(&word, "cd") {
        if arg.len() == 0 {
            Action::Nothing
        } else {
            let path = expand_tilde_with(string_of(&arg).as_str(), home);
            Action::CommandExecute(concat2("cd ", path.as_str()))
        }
    } else if chars_equal(&word, "mkdir") {
        if arg.len() == 0 {
            Action::Nothing
        } else {
            Action::CreateDir(string_of(&arg))
        }
    } else if chars_equal(&word, "touch") {
        if arg.len() == 0 {
            Action::Nothing
        } else {
            Action::CreateFile(string_of(&arg))
        }
    } else if chars_equal(&word, "sort") {
        if chars_equal(&arg, "name") {
            Action::SortByName
        } else if chars_equal(&arg, "size") {
            Action::SortBySize
        } else if chars_equal(&arg, "modified") || chars_equal(&arg, "date") {
            Action::SortByModified
        } else if chars_equal(&arg, "ext") || chars_equal(&arg, "type") {
            Action::SortByExtension
        } else {
            Action::Nothing
        }
    } else if chars_equal(&word, "bookmark") || chars_equal(&word, "bm") {
        Action::BookmarkAdd
    } else if chars_equal(&word, "refresh") {
        Action::Refresh
    } else {
        Action::Nothing
    };
    assert(parsed_as(cmd@, home_seq(home), r));
    r
}

/// Parse a command string (from `:` mode) into an action. `cd` arguments
/// have `~` expanded against the home directory the environment gives.
pub fn parse_command(cmd: &str) -> (r: Action)
    ensures
        exists|home: Option<Seq<char>>| parsed_as(cmd@, home, r),
{
    let home = home_dir();
    match home {
        Some(h) => parse_command_with(cmd, Some(h.as_str())),
        None => parse_command_with(cmd, None),
    }
}

/// Esc always leaves the handler in Normal mode, and in a text-entry mode
/// it also empties the input buffer.
pub proof fn law_escape_returns_to_normal(
    mode: Mode,
    pending: Option<char>,
    buf: Seq<char>,
    control: bool,
    mode2: Mode,
    pending2: Option<char>,
    buf2: Seq<char>,
    r: Action,
)
    requires
        key_handled(mode, pending, buf, (KeyEvent { code: KeyCode::Esc, control }), mode2, pending2, buf2, r),
    ensures
        mode2 == Mode::Normal,
        mode != Mode::Normal && mode != Mode::Visual ==> buf2.len() == 0,
{
}

/// In a text-entry mode, typing a character and then Backspace gives back
/// the buffer one started with, and the mode stays.
pub proof fn law_type_then_erase(
    mode: Mode,
    buf: Seq<char>,
    c: char,
    mode1: Mode,
    buf1: Seq<char>,
    r1: Action,
    mode2: Mode,
    buf2: Seq<char>,
    r2: Action,
)
    requires
        mode != Mode::Normal,
        mode != Mode::Visual,
        text_outcome(mode, buf, (KeyEvent { code: KeyCode::Char(c), control: false }), mode1, buf1, r1),
        text_outcome(mode1, buf1, (KeyEvent { code: KeyCode::Backspace, control: false }), mode2, buf2, r2),
    ensures
        mode2 == mode,
        buf2 == buf,
{
    assert(buf1.drop_last() =~= buf);
}

/// The Normal-mode key table for single keys: with nothing pending, `j`/Down
/// and `k`/Up move the cursor, `G` goes to the bottom, `l`/Right enters and
/// `h`/Left leaves a directory, Enter opens, Space toggles the selection,
/// `y` yanks, `p` pastes, `.` toggles hidden files, `R` refreshes, `n`/`N`
/// step through search matches, `b` adds a bookmark, `s`/`S` sort by name
/// and size, `q` quits; each leaves the handler in Normal mode with nothing
/// pending and the buffer as it was.
pub proof fn law_normal_keys(
    buf: Seq<char>,
    key: KeyEvent,
    mode2: Mode,
    pending2: Option<char>,
    buf2: Seq<char>,
    r: Action,
)
    requires
        key_handled(Mode::Normal, None, buf, key, mode2, pending2, buf2, r),
        !key.control,
    ensures
        key.code == KeyCode::Char('G') ==> r == Action::CursorBottom,
        key.code == KeyCode::Char('j') || key.code == KeyCode::Down ==> r == Action::CursorDown,
        key.code == KeyCode::Char('k') || key.code == KeyCode::Up ==> r == Action::CursorUp,
        key.code == KeyCode::Char('l') || key.code == KeyCode::Right ==> r == Action::EnterDir,
        key.code == KeyCode::Char('h') || key.code == KeyCode::Left ==> r == Action::ParentDir,
        key.code == KeyCode::Enter ==> r == Action::OpenFile,
        key.code == KeyCode::Char(' ') ==> r == Action::ToggleSelect,
        key.code == KeyCode::Char('y') ==> r == Action::Yank,
        key.code == KeyCode::Char('p') ==> r == Action::Paste,
        key.code == KeyCode::Char('.') ==> r == Action::ToggleHidden,
        key.code == KeyCode::Char('R') ==> r == Action::Refresh,
        key.code == KeyCode::Char('n') ==> r == Action::SearchNext,
        key.code == KeyCode::Char('N') ==> r == Action::SearchPrev,
        key.code == KeyCode::Char('b') ==> r == Action::BookmarkAdd,
        key.code == KeyCode::Char('s') ==> r == Action::SortByName,
        key.code == KeyCode::Char('S') ==> r == Action::SortBySize,
        key.code == KeyCode::Char('q') ==> r == Action::Quit,
        key.code == KeyCode::Char('G') || key.code == KeyCode::Char('j') || key.code == KeyCode::Char('k')
            || key.code == KeyCode::Char('y') || key.code == KeyCode::Char('p') || key.code
            == KeyCode::Char('q') ==> mode2 == Mode::Normal && pending2 is None && buf2 == buf,
{
}

/// Two-key sequences in Normal mode: `g` then `g` goes to the top and `d`
/// then `d` deletes; the first key produces nothing and waits, and after the
/// second nothing is pending.
pub proof fn law_double_keys(
    buf: Seq<char>,
    c: char,
    control1: bool,
    control2: bool,
    mode1: Mode,
    pending1: Option<char>,
    buf1: Seq<char>,
    r1: Action,
    mode2: Mode,
    pending2: Option<char>,
    buf2: Seq<char>,
    r2: Action,
)
    requires
        c == 'g' || c == 'd',
        key_handled(
            Mode::Normal,
            None,
            buf,
            (KeyEvent { code: KeyCode::Char(c), control: control1 }),
            mode1,
            pending1,
            buf1,
            r1,
        ),
        key_handled(
            mode1,
            pending1,
            buf1,
            (KeyEvent { code: KeyCode::Char(c), control: control2 }),
            mode2,
            pending2,
            buf2,
            r2,
        ),
    ensures
        r1 == Action::Nothing,
        mode1 == Mode::Normal,
        mode2 == Mode::Normal,
        pending2 is None,
        c == 'g' ==> r2 == Action::CursorTop,
        c == 'd' ==> r2 == Action::Delete,
{
}

/// In Visual mode `y` yanks and `d` cuts the selection, both returning to
/// Normal mode; `j`/`k` move the cursor and stay in Visual mode.
pub proof fn law_visual_keys(
    pending: Option<char>,
    buf: Seq<char>,
    key: KeyEvent,
    mode2: Mode,
    pending2: Option<char>,
    buf2: Seq<char>,
    r: Action,
)
    requires
        key_handled(Mode::Visual, pending, buf, key, mode2, pending2, buf2, r),
    ensures
        key.code == KeyCode::Char('y') ==> r == Action::Yank && mode2 == Mode::Normal,
        key.code == KeyCode::Char('d') ==> r == Action::Cut && mode2 == Mode::Normal,
        key.code == KeyCode::Char('j') ==> r == Action::CursorDown && mode2 == Mode::Visual,
        key.code == KeyCode::Char('k') ==> r == Action::CursorUp && mode2 == Mode::Visual,
{
}

} // verus!
