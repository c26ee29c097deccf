//! What the terminal screen shows: the text of each row and how it is
//! styled. Painting the cells is the caller's.
//!
//! Layout: tab bar (1 row) | main area | status bar (1 row), with an
//! optional input-mode overlay on the status row. The main area splits into
//! three columns: left pane | right pane | preview.

use vstd::prelude::*;
use crate::input::Mode;
use crate::pane::{format_size, format_time, human_size, time_text};
use crate::platform::FileEntry;
use crate::text::{
    concat2, decimal, owned, pad_left, pad_right, push_decimal, push_padded_left,
    push_padded_right, take_chars,
};

verus! {

/// A name cut to at most `max_len` characters: unchanged when it fits,
/// otherwise its first `max_len - 3` characters and `...` (just the first
/// `max_len` characters when `max_len` is 2 or less).
pub open spec fn truncated(name: Seq<char>, max_len: nat) -> Seq<char> {
    if name.len() <= max_len {
        name
    } else if max_len > 2 {
        name.take(max_len - 3) + "..."@
    } else {
        name.take(max_len as int)
    }
}

/// Truncate a name for display (see `truncated`).
pub fn truncate_name(name: &str, max_len: usize) -> (r: String)
    ensures
        r@ == truncated(name@, max_len as nat),
{
    let n = name.unicode_len();
    if n <= max_len {
        owned(name)
    } else if max_len > 2 {
        let head = take_chars(name, max_len - 3);
        concat2(head.as_str(), "...")
    } else {
        take_chars(name, max_len)
    }
}

/// The row of a file list for an entry:
/// `{icon}{name:<30} {size:>8}  {modified}`, the icon `/` for a directory,
/// the name cut to 29 characters, and no size for a directory.
pub open spec fn entry_row(e: FileEntry) -> Seq<char> {
    (if e.is_dir {
        "/"@
    } else {
        " "@
    }) + pad_right(truncated(e.name@, 29), 30) + " "@ + pad_left(
        if e.is_dir {
            Seq::empty()
        } else {
            human_size(e.size)
        },
        8,
    ) + "  "@ + time_text(e.modified)
}

/// The text of a file-list row.
pub fn entry_line(e: &FileEntry) -> (r: String)
    ensures
        r@ == entry_row(*e),
{
    let mut line = if e.is_dir {
        owned("/")
    } else {
        owned(" ")
    };
    let name = truncate_name(e.name.as_str(), 29);
    push_padded_right(&mut line, name.as_str(), 30);
    line.append(" ");
    let size = if e.is_dir {
        String::new()
    } else {
        format_size(e.size)
    };
    push_padded_left(&mut line, size.as_str(), 8);
    line.append("  ");
    let date = format_time(e.modified);
    line.append(date.as_str());
    line
}

/// How a file-list row is styled.
#[derive(Debug, Clone, Copy, PartialEq, Eq, Structural)]
pub enum RowStyle {
    /// Under the cursor and selected.
    CursorSelected,
    /// Under the cursor.
    Cursor,
    /// Selected.
    Selected,
    /// A directory.
    Directory,
    /// Any other row.
    Plain,
}

/// The style of a row: the cursor wins over selection, which wins over the
/// directory colour.
pub open spec fn style_for(is_cursor: bool, is_selected: bool, is_dir: bool) -> RowStyle {
    if is_cursor && is_selected {
        RowStyle::CursorSelected
    } else if is_cursor {
        RowStyle::Cursor
    } else if is_selected {
        RowStyle::Selected
    } else if is_dir {
        RowStyle::Directory
    } else {
        RowStyle::Plain
    }
}

/// The style of a file-list row.
pub fn row_style(is_cursor: bool, is_selected: bool, is_dir: bool) -> (r: RowStyle)
    ensures
        r == style_for(is_cursor, is_selected, is_dir),
{
    if is_cursor && is_selected {
        RowStyle::CursorSelected
    } else if is_cursor {
        RowStyle::Cursor
    } else if is_selected {
        RowStyle::Selected
    } else if is_dir {
        RowStyle::Directory
    } else {
        RowStyle::Plain
    }
}

/// The label of an input mode on the status bar.
pub open spec fn mode_name(mode: Mode) -> Seq<char> {
    match mode {
        Mode::Normal => "NORMAL"@,
        Mode::Visual => "VISUAL"@,
        Mode::Command => "COMMAND"@,
        Mode::Search => "SEARCH"@,
        Mode::Rename => "RENAME"@,
        Mode::Create { is_dir } => if is_dir {
            "MKDIR"@
        } else {
            "MKFILE"@
        },
    }
}

/// The status-bar label of a mode.
pub fn mode_label(mode: Mode) -> (r: &'static str)
    ensures
        r@ == mode_name(mode),
{
    match mode {
        Mode::Normal => "NORMAL",
        Mode::Visual => "VISUAL",
        Mode::Command => "COMMAND",
        Mode::Search => "SEARCH",
        Mode::Rename => "RENAME",
        Mode::Create { is_dir } => if is_dir {
            "MKDIR"
        } else {
            "MKFILE"
        },
    }
}

/// The left side of the status bar: ` {mode} | {path}`.
pub fn status_left(mode: Mode, path: &str) -> (r: String)
    ensures
        r@ == " "@ + mode_name(mode) + " | "@ + path@,
{
    let mut s = concat2(" ", mode_label(mode));
    s.append(" | ");
    s.append(path);
    s
}

/// Where the cursor stands, `{cursor + 1}/{count}`, or nothing in an empty
/// listing.
pub open spec fn position_text(cursor: nat, count: nat) -> Seq<char> {
    if count == 0 {
        Seq::empty()
    } else {
        decimal(cursor + 1) + "/"@ + decimal(count)
    }
}

/// The right side of the status bar: `{selected} selected | {position} `
/// when anything is selected, else `{position} `.
pub open spec fn status_right_text(cursor: nat, count: nat, selected: nat) -> Seq<char> {
    if selected > 0 {
        decimal(selected) + " selected | "@ + position_text(cursor, count) + " "@
    } else {
        position_text(cursor, count) + " "@
    }
}

/// The right side of the status bar for a pane with `count` entries,
/// `selected` of them selected.
pub fn status_right(cursor: usize, count: usize, selected: usize) -> (r: String)
    requires
        count > 0 ==> cursor < usize::MAX,
    ensures
        r@ == status_right_text(cursor as nat, count as nat, selected as nat),
{
    let mut pos = String::new();
    if count > 0 {
        push_decimal(&mut pos, (cursor + 1) as u64);
        pos.append("/");
        push_decimal(&mut pos, count as u64);
    }
    assert(pos@ =~= position_text(cursor as nat, count as nat));
    let mut s = String::new();
    if selected > 0 {
        push_decimal(&mut s, selected as u64);
        s.append(" selected | ");
    }
    s.append(pos.as_str());
    s.append(" ");
    assert(s@ =~= status_right_text(cursor as nat, count as nat, selected as nat));
    s
}

/// Whether a mode shows the input line over the status bar.
pub open spec fn has_input_line(mode: Mode) -> bool {
    match mode {
        Mode::Command | Mode::Search | Mode::Rename | Mode::Create { .. } => true,
        _ => false,
    }
}

/// Whether the input line is shown in this mode.
pub fn shows_input_line(mode: Mode) -> (r: bool)
    ensures
        r == has_input_line(mode),
{
    match mode {
        Mode::Command | Mode::Search | Mode::Rename | Mode::Create { .. } => true,
        _ => false,
    }
}

/// The prompt before the input buffer in each mode.
pub open spec fn prompt_of(mode: Mode) -> Seq<char> {
    match mode {
        Mode::Command => ":"@,
        Mode::Search => "/"@,
        Mode::Rename => "rename: "@,
        Mode::Create { is_dir } => if is_dir {
            "mkdir: "@
        } else {
            "touch: "@
        },
        _ => ""@,
    }
}

/// The input line: the mode's prompt, then the buffer.
pub fn input_line(mode: Mode, buffer: &str) -> (r: String)
    ensures
        r@ == prompt_of(mode) + buffer@,
{
    let prefix = match mode {
        Mode::Command => ":",
        Mode::Search => "/",
        Mode::Rename => "rename: ",
        Mode::Create { is_dir } => if is_dir {
            "mkdir: "
        } else {
            "touch: "
        },
        _ => "",
    };
    concat2(prefix, buffer)
}

/// A tab's label on the tab bar: ` {name} `.
pub fn tab_label(name: &str) -> (r: String)
    ensures
        r@ == " "@ + name@ + " "@,
{
    crate::text::concat3(" ", name, " ")
}

/// The widths of the three columns of a main area `w` cells wide: 30% for
/// the left pane and 35% for the right one, each at least 8, and the rest
/// for the preview.
pub open spec fn column_widths(w: u16) -> (int, int, int) {
    let l = if w * 30 / 100 < 8 {
        8
    } else {
        w * 30 / 100
    };
    let r = if w * 35 / 100 < 8 {
        8
    } else {
        w * 35 / 100
    };
    (l, r, w - l - r)
}

/// Split a main area `w` cells wide into the left, right and preview
/// columns (see `column_widths`); the two panes must fit.
pub fn main_columns(w: u16) -> (r: (u16, u16, u16))
    requires
        column_widths(w).2 >= 0,
    ensures
        (r.0 as int, r.1 as int, r.2 as int) == column_widths(w),
{
    let wide = w as u32;
    let l30 = wide * 30 / 100;
    let r35 = wide * 35 / 100;
    let left: u16 = if l30 < 8 {
        8
    } else {
        l30 as u16
    };
    let right: u16 = if r35 < 8 {
        8
    } else {
        r35 as u16
    };
    (left, right, w - left - right)
}

/// The cells taken by tab labels of the given lengths on a bar starting at
/// column `x`, `w` cells wide: each label takes its length (at most `w`)
/// and is followed by a one-cell gap; the first label that would pass the
/// end of the bar, and all after it, are not drawn. Gives each drawn
/// label's column and width.
pub open spec fn tab_cells(lens: Seq<nat>, x: int, w: int, col: int) -> Seq<(int, int)>
    decreases lens.len(),
{
    if lens.len() == 0 {
        Seq::empty()
    } else {
        let lw = if lens[0] < w {
            lens[0] as int
        } else {
            w
        };
        if col + lw > x + w {
            Seq::empty()
        } else {
            seq![(col, lw)] + tab_cells(lens.drop_first(), x, w, col + lw + 1)
        }
    }
}

/// The character counts of the labels.
pub open spec fn label_lengths(labels: Seq<String>) -> Seq<nat> {
    labels.map_values(|l: String| l@.len())
}

/// Lay out the tab labels on a bar starting at column `x`, `w` cells wide
/// (see `tab_cells`).
pub fn tab_bar_layout(labels: &Vec<String>, x: u16, w: u16) -> (r: Vec<(u16, u16)>)
    requires
        x + w < u16::MAX,
    ensures
        r@.map_values(|c: (u16, u16)| (c.0 as int, c.1 as int)) == tab_cells(label_lengths(labels@), x as int, w as int, x as int),
{
    let ghost lens = label_lengths(labels@);
    let mut out: Vec<(u16, u16)> = Vec::new();
    let mut col: u16 = x;
    let mut i: usize = 0;
    let end: u16 = x + w;
    proof {
        assert(lens.skip(0) =~= lens);
        assert(out@.map_values(|c: (u16, u16)| (c.0 as int, c.1 as int)) =~= Seq::<(int, int)>::empty());
        assert(Seq::<(int, int)>::empty() + tab_cells(lens, x as int, w as int, x as int) =~= tab_cells(
            lens,
            x as int,
            w as int,
            x as int,
        ));
    }
    while i < labels.len()
        invariant_except_break
            i <= labels.len(),
            x as int <= col as int <= end as int + 1,
            end == x + w,
            x + w < u16::MAX,
            lens == label_lengths(labels@),
            out@.map_values(|c: (u16, u16)| (c.0 as int, c.1 as int)) + tab_cells(lens.skip(i as int), x as int, w as int, col as int)
                == tab_cells(lens, x as int, w as int, x as int),
        ensures
            out@.map_values(|c: (u16, u16)| (c.0 as int, c.1 as int)) == tab_cells(lens, x as int, w as int, x as int),
        decreases labels.len() - i,
    {
        let n = labels[i].unicode_len();
        let lw: u16 = if n < w as usize {
            n as u16
        } else {
            w
        };
        proof {
            assert(lens.skip(i as int)[0] == lens[i as int]);
            assert(lens.skip(i as int).drop_first() =~= lens.skip(i + 1));
        }
        if col as u32 + lw as u32 > end as u32 {
            proof {
                assert(tab_cells(lens.skip(i as int), x as int, w as int, col as int) =~= Seq::empty());
                assert(out@.map_values(|c: (u16, u16)| (c.0 as int, c.1 as int)) =~= out@.map_values(
                    |c: (u16, u16)| (c.0 as int, c.1 as int),
                ) + Seq::<(int, int)>::empty());
            }
            break;
        }
        let ghost before = out@;
        out.push((col, lw));
        proof {
            assert(out@.map_values(|c: (u16, u16)| (c.0 as int, c.1 as int)) =~= before.map_values(
                |c: (u16, u16)| (c.0 as int, c.1 as int),
            ).push((col as int, lw as int)));
        }
        col = col + lw + 1;
        i = i + 1;
        proof {
            let m = before.map_values(|c: (u16, u16)| (c.0 as int, c.1 as int));
            assert(m.push((col - lw - 1, lw as int)) + tab_cells(lens.skip(i as int), x as int, w as int, col as int)
                =~= m + tab_cells(lens.skip(i - 1), x as int, w as int, col - lw - 1));
        }
    }
    proof {
        if i == labels.len() {
            assert(lens.skip(i as int) =~= Seq::<nat>::empty());
            assert(out@.map_values(|c: (u16, u16)| (c.0 as int, c.1 as int)) =~= out@.map_values(
                |c: (u16, u16)| (c.0 as int, c.1 as int),
            ) + Seq::<(int, int)>::empty());
        }
    }
    out
}

} // verus!
