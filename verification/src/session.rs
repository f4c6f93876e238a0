//! The editor session: one owned value holding the document and every piece
//! of interactive state — cursor, selection, scroll, mode, column widths,
//! clipboard and cell marks — mutated by one command handler per key.
use std::collections::HashMap;
use umya_spreadsheet::Workbook;
use vstd::prelude::*;

use crate::COLUMN_WIDTH_STEP;
use crate::DEFAULT_COLUMN_WIDTH;
use crate::MAX_COLUMNS;
use crate::MAX_COLUMN_WIDTH;
use crate::MAX_ROWS;
use crate::MIN_COLUMN_WIDTH;
use crate::doc::cell_bg_argb_at;
use crate::doc::cell_font_argb_at;
use crate::doc::cell_format_code_at;
use crate::doc::cell_formula_at;
use crate::doc::cell_key;
use crate::doc::cell_value_at;
use crate::doc::clear_cell_bg_at;
use crate::doc::doc_bg;
use crate::doc::doc_extent;
use crate::doc::doc_font;
use crate::doc::doc_formats;
use crate::doc::doc_formulas;
use crate::doc::doc_ready;
use crate::doc::doc_sheet_names;
use crate::doc::doc_values;
use crate::doc::is_canonical_argb;
use crate::doc::format_value;
use crate::doc::formatted_of;
use crate::doc::set_cell_bg_solid_at;
use crate::doc::set_cell_font_argb_at;
use crate::doc::set_cell_value_at;
use crate::doc::sheet_name;
use crate::doc::sheet_count;
use crate::doc::sheet_extent;
use crate::doc::used_cells;
use crate::marks::CellMark;
use crate::marks::argb_to_bg_mark;
use crate::marks::argb_to_font_mark;
use crate::marks::decode_mark;
use crate::marks::encode_bg;
use crate::marks::encode_font;
use crate::selection::Selection;

verus! {

broadcast use vstd::std_specs::hash::group_hash_axioms, vstd::seq_lib::group_seq_properties;

/// Relies on `String::push`: appends the given character to the string.
pub assume_specification[ String::push ](s: &mut String, c: char)
    ensures
        final(s)@ == old(s)@.push(c),
;

/// Relies on `String::pop`: removes and returns the last character, or does
/// nothing on an empty string.
pub assume_specification[ String::pop ](s: &mut String) -> (r: Option<char>)
    ensures
        old(s)@.len() == 0 ==> r is None && final(s)@ == old(s)@,
        old(s)@.len() > 0 ==> r == Some(old(s)@.last()) && final(s)@ == old(s)@.drop_last(),
;

/// The top-level interaction mode: exactly one is active at a time and
/// governs which component receives key input.
#[derive(Debug, Clone, Copy, PartialEq, Eq, Structural)]
pub enum Mode {
    View,
    Edit,
    SheetSelect,
}

/// A key, reduced to what the editor distinguishes.
#[derive(Debug, Clone, Copy, PartialEq, Eq, Structural)]
pub enum Key {
    Char(char),
    F(u8),
    Up,
    Down,
    Left,
    Right,
    Enter,
    Tab,
    BackTab,
    Backspace,
    Home,
    End,
    PageUp,
    PageDown,
    Esc,
    Other,
}

/// One key press with its modifiers.
#[derive(Debug, Clone, Copy, PartialEq, Eq, Structural)]
pub struct KeyPress {
    pub code: Key,
    pub ctrl: bool,
    pub shift: bool,
}

/// What the caller must do after a key was handled; saving the document is
/// input/output and stays outside the library.
#[derive(Debug, Clone, Copy, PartialEq, Eq, Structural)]
pub enum Action {
    Nothing,
    Save,
}

/// A status line message. Rendering it as text is presentation and is left
/// to the caller.
#[derive(Debug, Clone, PartialEq, Eq)]
pub enum StatusMessage {
    Saved,
    SaveFailed(String),
    Copied(u32),
    Pasted(u32, u32),
    ClipboardEmpty,
    ColumnAtMaximum(u16),
    ColumnAtMinimum(u16),
    Marked(u32, CellMark),
    FormulaReadOnly(String),
}

/// A rectangular snapshot of raw cell values, row-major, captured at copy
/// time and independent of the document afterwards.
#[derive(Debug, Clone)]
pub struct Clipboard {
    pub data: Vec<Vec<String>>,
}

impl Default for Clipboard {
    fn default() -> (r: Self)
        ensures
            r.data@.len() == 0,
    {
        Clipboard { data: Vec::new() }
    }
}

/// The key under which one cell's mark is stored: sheets, rows and columns
/// are packed into disjoint ranges, so distinct cells get distinct keys.
pub open spec fn mark_key(sheet: int, row: int, col: int) -> int {
    (sheet * 0x1_0000_0000 + row) * 0x1_0000_0000 + col
}

/// The coordinate ranges the mark key packs without collision: any sheet
/// index and any 32-bit row or column number.
pub open spec fn key_space(sheet: int, row: int, col: int) -> bool {
    &&& 0 <= sheet < 0x1_0000_0000_0000_0000
    &&& 0 <= row < 0x1_0000_0000
    &&& 0 <= col < 0x1_0000_0000
}

/// The mark a marks map holds for a cell; unmarked when absent.
pub open spec fn marks_map_at(m: Map<u128, CellMark>, sheet: int, row: int, col: int) -> CellMark {
    let k = mark_key(sheet, row, col) as u128;
    if m.contains_key(k) {
        m[k]
    } else {
        CellMark::Unmarked
    }
}

/// Whether the mark colors only the text, leaving any background in place.
pub open spec fn is_text_mark(m: CellMark) -> bool {
    m == CellMark::RedText || m == CellMark::GreenText || m == CellMark::MagentaText
}

/// Whether (row, col) lies in the given selection rectangle.
pub open spec fn in_rect(sel: Selection, row: int, col: int) -> bool {
    &&& sel.spec_min_row() <= row <= sel.spec_max_row()
    &&& sel.spec_min_col() <= col <= sel.spec_max_col()
}

proof fn lemma_mark_key_injective(s1: int, r1: int, c1: int, s2: int, r2: int, c2: int)
    requires
        key_space(s1, r1, c1),
        key_space(s2, r2, c2),
        mark_key(s1, r1, c1) == mark_key(s2, r2, c2),
    ensures
        s1 == s2 && r1 == r2 && c1 == c2,
{
    let b = 0x1_0000_0000int;
    let x1 = s1 * b + r1;
    let x2 = s2 * b + r2;
    vstd::arithmetic::div_mod::lemma_fundamental_div_mod_converse(x1 * b + c1, b, x1, c1);
    vstd::arithmetic::div_mod::lemma_fundamental_div_mod_converse(x2 * b + c2, b, x2, c2);
    vstd::arithmetic::div_mod::lemma_fundamental_div_mod_converse(x1, b, s1, r1);
    vstd::arithmetic::div_mod::lemma_fundamental_div_mod_converse(x2, b, s2, r2);
}

/// The packed map key of one cell.
fn mark_key_exec(sheet: usize, row: u32, col: u32) -> (k: u128)
    ensures
        k as int == mark_key(sheet as int, row as int, col as int),
{
    ((sheet as u128) * 0x1_0000_0000u128 + row as u128) * 0x1_0000_0000u128 + col as u128
}

/// Clamping of a position to an inclusive range.
pub open spec fn clamp_spec(v: int, lo: int, hi: int) -> int {
    if v < lo {
        lo
    } else if v > hi {
        hi
    } else {
        v
    }
}

/// How one scroll offset reacts to the cursor: if the cursor is at or before
/// the first visible line the offset backs up to it; if it is past the last
/// visible line the offset advances by exactly the overshoot; otherwise it
/// stays.
pub open spec fn adjust_offset_spec(off: int, pos: int, view: int) -> int {
    if pos <= off {
        pos - 1
    } else if pos > off + view {
        pos - view
    } else {
        off
    }
}

/// Cyclic wrap of a 0-based index moved by `delta` within `count` entries.
pub open spec fn wrap_index(idx: int, delta: int, count: int) -> int {
    if delta >= 0 {
        (idx + delta) % count
    } else {
        (idx + count - ((-delta) % count)) % count
    }
}

/// The whole editor session.
pub struct App {
    /// The document being edited.
    pub book: Workbook,
    /// Index of the sheet every command applies to.
    pub current_sheet_index: usize,
    /// Cursor position, (row, col), 1-based.
    pub cursor: (u32, u32),
    /// The anchored selection; collapses to the cursor on non-extending moves.
    pub selection: Selection,
    /// Which component receives key input.
    pub mode: Mode,
    /// Scroll offset, (row_offset, col_offset), 0-based.
    pub scroll: (u32, u32),
    /// The in-progress cell text while in edit mode.
    pub edit_text: String,
    /// Set once the user asked to quit; checked by the caller's loop.
    pub should_quit: bool,
    /// Explicit display widths by column index; absent means the default.
    pub column_widths: HashMap<u32, u16>,
    /// The last copied rectangle of raw values.
    pub clipboard: Clipboard,
    /// The message shown in the status line, if any.
    pub status_message: Option<StatusMessage>,
    /// Visible (rows, cols) of the grid, set from the last draw.
    pub viewport_size: (u16, u16),
    /// Marks by packed (sheet, row, col) key; unmarked cells are absent.
    pub cell_marks: HashMap<u128, CellMark>,
    /// The highlighted candidate while picking a sheet.
    pub sheet_select_index: usize,
}

impl App {
    /// The number of sheets in the document.
    pub open spec fn sheet_count_spec(self) -> int {
        doc_sheet_names(self.book).len() as int
    }

    /// The display width of a column: its map entry, or the default.
    pub open spec fn col_width_spec(self, col: u32) -> u16 {
        if self.column_widths@.contains_key(col) {
            self.column_widths@[col]
        } else {
            DEFAULT_COLUMN_WIDTH
        }
    }

    /// The display width of a column, total over mathematical indices.
    pub open spec fn col_width_at(self, col: int) -> int {
        if 0 <= col <= u32::MAX {
            self.col_width_spec(col as u32) as int
        } else {
            DEFAULT_COLUMN_WIDTH as int
        }
    }

    /// The mark the session holds for a cell; unmarked when absent.
    pub open spec fn mark_at(self, sheet: int, row: int, col: int) -> CellMark {
        marks_map_at(self.cell_marks@, sheet, row, col)
    }

    /// The clipboard is rectangular and fits the document bounds.
    pub open spec fn clipboard_wf(self) -> bool {
        &&& self.clipboard.data@.len() <= MAX_ROWS
        &&& (forall|i: int|
            0 <= i < self.clipboard.data@.len() ==> (#[trigger] self.clipboard.data@[i])@.len()
                == self.clipboard.data@[0]@.len())
        &&& (self.clipboard.data@.len() > 0 ==> 1 <= self.clipboard.data@[0]@.len()
            <= MAX_COLUMNS)
    }

    /// Well-formedness of the session: the document is readable and has at
    /// least one sheet, the sheet indices are in range, cursor and selection
    /// corners sit inside the document bounds, the scroll offsets and
    /// viewport are sane, explicit column widths stay within their band, and
    /// the clipboard is rectangular.
    pub open spec fn wf(self) -> bool {
        &&& doc_ready(self.book)
        &&& doc_sheet_names(self.book).len() >= 1
        &&& self.current_sheet_index < doc_sheet_names(self.book).len()
        &&& self.sheet_select_index < doc_sheet_names(self.book).len()
        &&& 1 <= self.cursor.0 <= MAX_ROWS
        &&& 1 <= self.cursor.1 <= MAX_COLUMNS
        &&& 1 <= self.selection.start.0 <= MAX_ROWS
        &&& 1 <= self.selection.start.1 <= MAX_COLUMNS
        &&& 1 <= self.selection.end.0 <= MAX_ROWS
        &&& 1 <= self.selection.end.1 <= MAX_COLUMNS
        &&& self.scroll.0 <= MAX_ROWS
        &&& self.scroll.1 <= MAX_COLUMNS
        &&& 1 <= self.viewport_size.0
        &&& 1 <= self.viewport_size.1
        &&& (forall|c: u32|
            self.column_widths@.contains_key(c) ==> MIN_COLUMN_WIDTH
                <= #[trigger] self.column_widths@[c] <= MAX_COLUMN_WIDTH)
        &&& self.clipboard_wf()
    }

    /// Everything except cursor, selection and scroll is unchanged.
    pub open spec fn nav_only_diff(pre: App, post: App) -> bool {
        &&& post.book == pre.book
        &&& post.current_sheet_index == pre.current_sheet_index
        &&& post.mode == pre.mode
        &&& post.edit_text == pre.edit_text
        &&& post.should_quit == pre.should_quit
        &&& post.column_widths == pre.column_widths
        &&& post.clipboard == pre.clipboard
        &&& post.status_message == pre.status_message
        &&& post.viewport_size == pre.viewport_size
        &&& post.cell_marks == pre.cell_marks
        &&& post.sheet_select_index == pre.sheet_select_index
    }

    /// Nothing at all was reconfigured outside the named navigation state;
    /// cursor and selection are also unchanged.
    pub open spec fn scroll_only_diff(pre: App, post: App) -> bool {
        &&& Self::nav_only_diff(pre, post)
        &&& post.cursor == pre.cursor
        &&& post.selection == pre.selection
    }


    /// The scroll offsets were adjusted to the new cursor by exactly the
    /// overshoot, against the viewport in force before the move.
    pub open spec fn scroll_followed(pre: App, post: App) -> bool {
        &&& post.scroll.0 == adjust_offset_spec(
            pre.scroll.0 as int,
            post.cursor.0 as int,
            pre.viewport_size.0 as int,
        )
        &&& post.scroll.1 == adjust_offset_spec(
            pre.scroll.1 as int,
            post.cursor.1 as int,
            pre.viewport_size.1 as int,
        )
    }

    /// The cursor moved by (dx, dy) clamped to the bounds, the selection
    /// extended or collapsed, and the scroll followed; nothing else changed.
    pub open spec fn moved(pre: App, post: App, dx: int, dy: int, extend: bool) -> bool {
        &&& App::nav_only_diff(pre, post)
        &&& post.cursor.0 == clamp_spec(pre.cursor.0 + dy, 1, MAX_ROWS as int)
        &&& post.cursor.1 == clamp_spec(pre.cursor.1 + dx, 1, MAX_COLUMNS as int)
        &&& (extend ==> post.selection.start == pre.selection.start && post.selection.end
            == post.cursor)
        &&& (!extend ==> post.selection.start == post.cursor && post.selection.end == post.cursor)
        &&& App::scroll_followed(pre, post)
    }

    /// The selection collapsed to the unmoved cursor; nothing else changed.
    pub open spec fn selection_cleared(pre: App, post: App) -> bool {
        &&& App::nav_only_diff(pre, post)
        &&& post.cursor == pre.cursor
        &&& post.scroll == pre.scroll
        &&& post.selection.start == post.cursor
        &&& post.selection.end == post.cursor
    }

    /// Cursor, selection and scroll reset to the document origin.
    pub open spec fn jumped_to_start(pre: App, post: App) -> bool {
        &&& App::nav_only_diff(pre, post)
        &&& post.cursor == (1u32, 1u32)
        &&& post.selection.start == (1u32, 1u32)
        &&& post.selection.end == (1u32, 1u32)
        &&& post.scroll == (0u32, 0u32)
    }

    /// The cursor jumped to the last used cell, at least (1, 1) and clamped
    /// to the bounds; the selection collapsed there and the scroll followed.
    pub open spec fn jumped_to_end(pre: App, post: App) -> bool {
        &&& App::nav_only_diff(pre, post)
        &&& post.cursor.0 == clamp_spec(
            doc_extent(pre.book)[pre.current_sheet_index as int].0,
            1,
            MAX_ROWS as int,
        )
        &&& post.cursor.1 == clamp_spec(
            doc_extent(pre.book)[pre.current_sheet_index as int].1,
            1,
            MAX_COLUMNS as int,
        )
        &&& post.selection.start == post.cursor
        &&& post.selection.end == post.cursor
        &&& App::scroll_followed(pre, post)
    }

    /// The cursor jumped to column 1 of its row; the selection collapsed
    /// there and the scroll followed.
    pub open spec fn jumped_to_row_start(pre: App, post: App) -> bool {
        &&& App::nav_only_diff(pre, post)
        &&& post.cursor.0 == pre.cursor.0
        &&& post.cursor.1 == 1
        &&& post.selection.start == post.cursor
        &&& post.selection.end == post.cursor
        &&& App::scroll_followed(pre, post)
    }

    /// The cursor jumped to the last used column within its row, at least 1
    /// and clamped; the selection collapsed there and the scroll followed.
    pub open spec fn jumped_to_row_end(pre: App, post: App) -> bool {
        &&& App::nav_only_diff(pre, post)
        &&& post.cursor.0 == pre.cursor.0
        &&& post.cursor.1 == clamp_spec(
            doc_extent(pre.book)[pre.current_sheet_index as int].1,
            1,
            MAX_COLUMNS as int,
        )
        &&& post.selection.start == post.cursor
        &&& post.selection.end == post.cursor
        &&& App::scroll_followed(pre, post)
    }

    /// Does nothing; the session has no time-driven behavior.
    pub fn on_tick(&mut self)
        ensures
            *final(self) == *old(self),
    {
    }

    /// Brings the cursor back into view after it moved, advancing or backing
    /// up each scroll offset by exactly the overshoot.
    fn adjust_scroll(&mut self)
        requires
            old(self).wf(),
        ensures
            final(self).wf(),
            App::scroll_only_diff(*old(self), *final(self)),
            final(self).scroll.0 == adjust_offset_spec(
                old(self).scroll.0 as int,
                old(self).cursor.0 as int,
                old(self).viewport_size.0 as int,
            ),
            final(self).scroll.1 == adjust_offset_spec(
                old(self).scroll.1 as int,
                old(self).cursor.1 as int,
                old(self).viewport_size.1 as int,
            ),
    {
        let (row, col) = self.cursor;
        let (view_rows, view_cols) = self.viewport_size;

        let row_off = if row <= self.scroll.0 {
            row - 1
        } else if row > self.scroll.0 + view_rows as u32 {
            row - view_rows as u32
        } else {
            self.scroll.0
        };
        let col_off = if col <= self.scroll.1 {
            col - 1
        } else if col > self.scroll.1 + view_cols as u32 {
            col - view_cols as u32
        } else {
            self.scroll.1
        };
        self.scroll = (row_off, col_off);
    }

    /// Moves the cursor by (dx columns, dy rows), clamped to the document
    /// bounds. An extending move advances only the selection's moving
    /// endpoint; a plain move collapses the selection to the cursor. The
    /// scroll offset then follows the cursor.
    pub fn move_cursor(&mut self, dx: i32, dy: i32, extend_selection: bool)
        requires
            old(self).wf(),
        ensures
            final(self).wf(),
            App::moved(*old(self), *final(self), dx as int, dy as int, extend_selection),
    {
        let (row, col) = self.cursor;
        let target_row = row as i64 + dy as i64;
        let target_col = col as i64 + dx as i64;
        let new_row = if target_row < 1 {
            1
        } else if target_row > MAX_ROWS as i64 {
            MAX_ROWS
        } else {
            target_row as u32
        };
        let new_col = if target_col < 1 {
            1
        } else if target_col > MAX_COLUMNS as i64 {
            MAX_COLUMNS
        } else {
            target_col as u32
        };
        self.cursor = (new_row, new_col);

        if extend_selection {
            self.selection.end = self.cursor;
        } else {
            self.selection = Selection::single(new_row, new_col);
        }

        self.adjust_scroll();
    }

    /// Collapses the selection to the cursor without moving the cursor.
    pub fn clear_selection(&mut self)
        requires
            old(self).wf(),
        ensures
            final(self).wf(),
            App::selection_cleared(*old(self), *final(self)),
    {
        self.selection = Selection::single(self.cursor.0, self.cursor.1);
    }

    /// Resets cursor, selection and scroll to the document origin.
    pub fn jump_to_start(&mut self)
        requires
            old(self).wf(),
        ensures
            final(self).wf(),
            App::jumped_to_start(*old(self), *final(self)),
    {
        self.cursor = (1, 1);
        self.selection = Selection::single(1, 1);
        self.scroll = (0, 0);
    }

    /// Moves to the last used cell of the current sheet, at least (1, 1) and
    /// clamped to the document bounds, collapsing the selection there.
    pub fn jump_to_end(&mut self)
        requires
            old(self).wf(),
        ensures
            final(self).wf(),
            App::jumped_to_end(*old(self), *final(self)),
    {
        let (max_row, max_col) = sheet_extent(&self.book, self.current_sheet_index);
        let row = if max_row < 1 {
            1
        } else if max_row > MAX_ROWS {
            MAX_ROWS
        } else {
            max_row
        };
        let col = if max_col < 1 {
            1
        } else if max_col > MAX_COLUMNS {
            MAX_COLUMNS
        } else {
            max_col
        };
        self.cursor = (row, col);
        self.selection = Selection::single(row, col);
        self.adjust_scroll();
    }

    /// Moves the cursor to column 1 of the current row.
    pub fn jump_to_row_start(&mut self)
        requires
            old(self).wf(),
        ensures
            final(self).wf(),
            App::jumped_to_row_start(*old(self), *final(self)),
    {
        self.cursor = (self.cursor.0, 1);
        self.selection = Selection::single(self.cursor.0, 1);
        self.adjust_scroll();
    }

    /// Moves the cursor to the last used column of the current sheet, at
    /// least 1 and clamped to the document bounds, within the current row.
    pub fn jump_to_row_end(&mut self)
        requires
            old(self).wf(),
        ensures
            final(self).wf(),
            App::jumped_to_row_end(*old(self), *final(self)),
    {
        let (_, max_col) = sheet_extent(&self.book, self.current_sheet_index);
        let col = if max_col < 1 {
            1
        } else if max_col > MAX_COLUMNS {
            MAX_COLUMNS
        } else {
            max_col
        };
        self.cursor = (self.cursor.0, col);
        self.selection = Selection::single(self.cursor.0, col);
        self.adjust_scroll();
    }

    /// Everything except the active sheet index is unchanged.
    pub open spec fn sheet_only_diff(pre: App, post: App) -> bool {
        &&& post.book == pre.book
        &&& post.cursor == pre.cursor
        &&& post.selection == pre.selection
        &&& post.mode == pre.mode
        &&& post.scroll == pre.scroll
        &&& post.edit_text == pre.edit_text
        &&& post.should_quit == pre.should_quit
        &&& post.column_widths == pre.column_widths
        &&& post.clipboard == pre.clipboard
        &&& post.status_message == pre.status_message
        &&& post.viewport_size == pre.viewport_size
        &&& post.cell_marks == pre.cell_marks
        &&& post.sheet_select_index == pre.sheet_select_index
    }

    /// The active sheet advanced by one, wrapping past the last sheet.
    pub open spec fn stepped_next_sheet(pre: App, post: App) -> bool {
        &&& App::sheet_only_diff(pre, post)
        &&& post.current_sheet_index == (pre.current_sheet_index + 1) % pre.sheet_count_spec()
    }

    /// The active sheet moved back by one, wrapping past the first sheet.
    pub open spec fn stepped_prev_sheet(pre: App, post: App) -> bool {
        &&& App::sheet_only_diff(pre, post)
        &&& post.current_sheet_index == (if pre.current_sheet_index == 0 {
            pre.sheet_count_spec() - 1
        } else {
            pre.current_sheet_index - 1
        })
    }

    /// Switches to the next sheet, wrapping past the last.
    pub fn next_sheet(&mut self)
        requires
            old(self).wf(),
        ensures
            final(self).wf(),
            App::stepped_next_sheet(*old(self), *final(self)),
    {
        let count = sheet_count(&self.book);
        proof {
            if old(self).current_sheet_index + 1 < count {
                vstd::arithmetic::div_mod::lemma_small_mod(
                    (old(self).current_sheet_index + 1) as nat,
                    count as nat,
                );
            } else {
                vstd::arithmetic::div_mod::lemma_mod_self_0(count as int);
            }
        }
        if self.current_sheet_index + 1 >= count {
            self.current_sheet_index = 0;
        } else {
            self.current_sheet_index = self.current_sheet_index + 1;
        }
    }

    /// Switches to the previous sheet, wrapping past the first.
    pub fn prev_sheet(&mut self)
        requires
            old(self).wf(),
        ensures
            final(self).wf(),
            App::stepped_prev_sheet(*old(self), *final(self)),
    {
        let count = sheet_count(&self.book);
        if self.current_sheet_index == 0 {
            self.current_sheet_index = count - 1;
        } else {
            self.current_sheet_index = self.current_sheet_index - 1;
        }
    }

    /// Everything except the column widths and the status message is
    /// unchanged.
    pub open spec fn width_only_diff(pre: App, post: App) -> bool {
        &&& post.book == pre.book
        &&& post.current_sheet_index == pre.current_sheet_index
        &&& post.cursor == pre.cursor
        &&& post.selection == pre.selection
        &&& post.mode == pre.mode
        &&& post.scroll == pre.scroll
        &&& post.edit_text == pre.edit_text
        &&& post.should_quit == pre.should_quit
        &&& post.clipboard == pre.clipboard
        &&& post.viewport_size == pre.viewport_size
        &&& post.cell_marks == pre.cell_marks
        &&& post.sheet_select_index == pre.sheet_select_index
    }

    /// The display width of a column.
    pub fn get_column_width(&self, col: u32) -> (w: u16)
        ensures
            w == self.col_width_spec(col),
    {
        match self.column_widths.get(&col) {
            Some(w) => *w,
            None => DEFAULT_COLUMN_WIDTH,
        }
    }

    /// One widening step applied to the cursor's column: the map gains the
    /// grown width (capped at the maximum, which is reported); nothing else
    /// changes.
    pub open spec fn widened(pre: App, post: App) -> bool {
        let col = pre.cursor.1;
        let grown = if pre.col_width_spec(col) + COLUMN_WIDTH_STEP > MAX_COLUMN_WIDTH {
            MAX_COLUMN_WIDTH as int
        } else {
            pre.col_width_spec(col) + COLUMN_WIDTH_STEP
        };
        &&& App::width_only_diff(pre, post)
        &&& post.column_widths@ == pre.column_widths@.insert(col, grown as u16)
        &&& post.status_message == (if grown == MAX_COLUMN_WIDTH {
            Some(StatusMessage::ColumnAtMaximum(MAX_COLUMN_WIDTH))
        } else {
            pre.status_message
        })
    }

    /// One shrinking step applied to the cursor's column: the width drops by
    /// one step but not below the minimum, which is reported when reached.
    /// The map entry is dropped only where the default width equals the
    /// minimum; otherwise the entry stays, so the column keeps rendering at
    /// the minimum instead of popping back to a wider default.
    pub open spec fn shrunk(pre: App, post: App) -> bool {
        let col = pre.cursor.1;
        let lowered = if pre.col_width_spec(col) - COLUMN_WIDTH_STEP < MIN_COLUMN_WIDTH {
            MIN_COLUMN_WIDTH as int
        } else {
            pre.col_width_spec(col) - COLUMN_WIDTH_STEP
        };
        &&& App::width_only_diff(pre, post)
        &&& post.column_widths@ == (if lowered <= MIN_COLUMN_WIDTH && DEFAULT_COLUMN_WIDTH
            == MIN_COLUMN_WIDTH {
            pre.column_widths@.remove(col)
        } else {
            pre.column_widths@.insert(col, lowered as u16)
        })
        &&& post.status_message == (if lowered == MIN_COLUMN_WIDTH {
            Some(StatusMessage::ColumnAtMinimum(MIN_COLUMN_WIDTH))
        } else {
            pre.status_message
        })
    }

    /// Widens the cursor's column by one step, up to the maximum width, and
    /// reports when the maximum is reached.
    pub fn widen_column(&mut self)
        requires
            old(self).wf(),
        ensures
            final(self).wf(),
            App::widened(*old(self), *final(self)),
            forall|c: u32|
                c != old(self).cursor.1
                    ==> final(self).col_width_spec(c) == old(self).col_width_spec(c),
    {
        let col = self.cursor.1;
        let current = self.get_column_width(col);
        let new_width = if current + COLUMN_WIDTH_STEP > MAX_COLUMN_WIDTH {
            MAX_COLUMN_WIDTH
        } else {
            current + COLUMN_WIDTH_STEP
        };
        self.column_widths.insert(col, new_width);
        if new_width >= MAX_COLUMN_WIDTH {
            self.status_message = Some(StatusMessage::ColumnAtMaximum(MAX_COLUMN_WIDTH));
        }
    }

    /// Shrinks the cursor's column by one step, not below the minimum width,
    /// and reports when the minimum is reached. The map entry is dropped at
    /// the minimum only where the default width equals the minimum, so a
    /// shrunk column never silently pops back to a wider default.
    pub fn shrink_column(&mut self)
        requires
            old(self).wf(),
        ensures
            final(self).wf(),
            App::shrunk(*old(self), *final(self)),
            final(self).col_width_spec(old(self).cursor.1) == if old(self).col_width_spec(
                old(self).cursor.1,
            ) - COLUMN_WIDTH_STEP < MIN_COLUMN_WIDTH {
                MIN_COLUMN_WIDTH as int
            } else {
                old(self).col_width_spec(old(self).cursor.1) - COLUMN_WIDTH_STEP
            },
            forall|c: u32|
                c != old(self).cursor.1
                    ==> final(self).col_width_spec(c) == old(self).col_width_spec(c),
    {
        let col = self.cursor.1;
        let current = self.get_column_width(col);
        let lowered = if current >= COLUMN_WIDTH_STEP {
            current - COLUMN_WIDTH_STEP
        } else {
            0
        };
        let new_width = if lowered < MIN_COLUMN_WIDTH {
            MIN_COLUMN_WIDTH
        } else {
            lowered
        };
        if new_width <= MIN_COLUMN_WIDTH && DEFAULT_COLUMN_WIDTH == MIN_COLUMN_WIDTH {
            self.column_widths.remove(&col);
            self.status_message = Some(StatusMessage::ColumnAtMinimum(MIN_COLUMN_WIDTH));
        } else {
            self.column_widths.insert(col, new_width);
            if new_width <= MIN_COLUMN_WIDTH {
                self.status_message = Some(StatusMessage::ColumnAtMinimum(MIN_COLUMN_WIDTH));
            }
        }
    }

    /// How many columns fit into the given width: columns from the first
    /// visible one accumulate their width plus one separator unit while the
    /// total stays within the budget, up to `cap` columns.
    pub open spec fn fit_cols(self, start: int, budget: int, cap: int) -> int
        decreases cap,
    {
        if cap <= 0 {
            0
        } else {
            let w = self.col_width_at(start) + 1;
            if w > budget {
                0
            } else {
                1 + self.fit_cols(start + 1, budget - w, cap - 1)
            }
        }
    }

    /// The number of grid columns a draw of the given inner width shows:
    /// as many as fit greedily from the first visible column (at most 50),
    /// but always at least one.
    pub fn compute_viewport_cols(&self, available_width: u16) -> (n: u16)
        requires
            self.wf(),
        ensures
            ({
                let f = self.fit_cols(self.scroll.1 + 1, available_width as int, 50);
                n == if f >= 1 {
                    f
                } else {
                    1
                }
            }),
    {
        let start_col: u32 = self.scroll.1 + 1;
        let mut num: u16 = 0;
        let mut used: u16 = 0;
        while num < 50
            invariant
                self.wf(),
                num <= 50,
                used <= available_width,
                start_col == self.scroll.1 + 1,
                start_col <= MAX_COLUMNS + 1,
                self.fit_cols(start_col as int, available_width as int, 50) == num
                    + self.fit_cols(
                    start_col + num as int,
                    available_width - used,
                    50 - num as int,
                ),
            ensures
                num <= 50,
                self.fit_cols(start_col as int, available_width as int, 50) == num as int,
            decreases 50 - num,
        {
            let col_idx = start_col + num as u32;
            let w = self.get_column_width(col_idx);
            assert(w <= MAX_COLUMN_WIDTH);
            let col_width = w + 1;
            if col_width > available_width - used {
                proof {
                    assert(self.col_width_at(start_col + num as int) == w as int);
                    assert(self.fit_cols(
                        start_col + num as int,
                        available_width - used,
                        50 - num as int,
                    ) == 0);
                }
                break;
            }
            used += col_width;
            num += 1;
        }
        if num < 1 {
            1
        } else {
            num
        }
    }

    /// The number of grid rows a draw of the given inner height shows:
    /// one per text line, but always at least one.
    pub fn compute_viewport_rows(&self, available_height: u16) -> (n: u16)
        ensures
            n == if available_height >= 1 {
                available_height as int
            } else {
                1
            },
    {
        if available_height < 1 {
            1
        } else {
            available_height
        }
    }

    /// Records the viewport size the last draw computed; subsequent scroll
    /// adjustment uses it.
    pub fn set_viewport_size(&mut self, rows: u16, cols: u16)
        requires
            old(self).wf(),
            rows >= 1,
            cols >= 1,
        ensures
            final(self).wf(),
            *final(self) == (App { viewport_size: (rows, cols), ..*old(self) }),
    {
        self.viewport_size = (rows, cols);
    }

    /// Opens the sheet picker with the current sheet highlighted.
    pub fn enter_sheet_select_mode(&mut self)
        requires
            old(self).wf(),
        ensures
            final(self).wf(),
            *final(self) == (App {
                mode: Mode::SheetSelect,
                sheet_select_index: old(self).current_sheet_index,
                ..*old(self)
            }),
    {
        self.sheet_select_index = self.current_sheet_index;
        self.mode = Mode::SheetSelect;
    }

    /// Moves the highlighted sheet candidate cyclically, wrapping at both
    /// ends of the sheet list.
    pub fn sheet_select_move(&mut self, delta: i32)
        requires
            old(self).wf(),
        ensures
            final(self).wf(),
            final(self).sheet_select_index == wrap_index(
                old(self).sheet_select_index as int,
                delta as int,
                old(self).sheet_count_spec(),
            ),
            delta == 1 ==> final(self).sheet_select_index == (old(self).sheet_select_index + 1)
                % old(self).sheet_count_spec(),
            delta == -1 ==> final(self).sheet_select_index == if old(self).sheet_select_index
                == 0 {
                old(self).sheet_count_spec() - 1
            } else {
                old(self).sheet_select_index - 1
            },
            *final(self) == (App {
                sheet_select_index: final(self).sheet_select_index,
                ..*old(self)
            }),
    {
        let count = sheet_count(&self.book);
        let count_wide = count as u128;
        let idx_wide = self.sheet_select_index as u128;
        let r: u128 = if delta >= 0 {
            (idx_wide + delta as u128) % count_wide
        } else {
            let back = (-(delta as i64)) as u128 % count_wide;
            (idx_wide + count_wide - back) % count_wide
        };
        proof {
            lemma_wrap_cases(
                old(self).sheet_select_index as int,
                delta as int,
                count as int,
            );
        }
        self.sheet_select_index = r as usize;
    }

    /// Makes the highlighted candidate the active sheet and returns to
    /// navigation.
    pub fn confirm_sheet_selection(&mut self)
        requires
            old(self).wf(),
        ensures
            final(self).wf(),
            *final(self) == (App {
                mode: Mode::View,
                current_sheet_index: old(self).sheet_select_index,
                ..*old(self)
            }),
    {
        self.current_sheet_index = self.sheet_select_index;
        self.mode = Mode::View;
    }
}

proof fn lemma_wrap_cases(idx: int, delta: int, count: int)
    requires
        0 <= idx < count,
    ensures
        delta == 1 ==> wrap_index(idx, delta, count) == (idx + 1) % count,
        delta == -1 ==> wrap_index(idx, delta, count) == if idx == 0 {
            count - 1
        } else {
            idx - 1
        },
        0 <= wrap_index(idx, delta, count) < count,
{
    vstd::arithmetic::div_mod::lemma_mod_bound(
        if delta >= 0 {
            idx + delta
        } else {
            idx + count - ((-delta) % count)
        },
        count,
    );
    if delta == -1 {
        if count == 1 {
            assert(idx == 0);
            vstd::arithmetic::div_mod::lemma_small_mod(0nat, 1nat);
        } else {
            vstd::arithmetic::div_mod::lemma_small_mod(1nat, count as nat);
            if idx == 0 {
                vstd::arithmetic::div_mod::lemma_small_mod((count - 1) as nat, count as nat);
            } else {
                vstd::arithmetic::div_mod::lemma_mod_multiples_vanish(1, idx - 1, count);
                vstd::arithmetic::div_mod::lemma_small_mod((idx - 1) as nat, count as nat);
            }
        }
    }
    if delta >= 0 {
        vstd::arithmetic::div_mod::lemma_mod_bound(idx + delta, count);
    }
}

/// Copying a rectangle and pasting it at a position where it fits entirely
/// within the document bounds reproduces the exact raw values at the target,
/// whatever formatting or marks sit on source or target: a snapshot that
/// holds the source rectangle's values, written back in full by a paste,
/// leaves the target rectangle equal to the source rectangle.
pub proof fn lemma_copy_paste_reproduces(
    src_book: Workbook,
    dst_book: Workbook,
    clip: Seq<Vec<String>>,
    sheet: int,
    min_row: int,
    min_col: int,
    rows: int,
    cols: int,
    target_row: int,
    target_col: int,
)
    requires
        rows >= 1,
        cols >= 1,
        clip.len() == rows,
        forall|i: int| 0 <= i < rows ==> (#[trigger] clip[i])@.len() == cols,
        forall|i: int, j: int|
            0 <= i < rows && 0 <= j < cols ==> (#[trigger] clip[i]@[j])@ == doc_values(
                src_book,
            )[cell_key(sheet, min_row + i, min_col + j)],
        1 <= target_row,
        1 <= target_col,
        target_row + rows - 1 <= MAX_ROWS,
        target_col + cols - 1 <= MAX_COLUMNS,
        forall|i: int, j: int|
            0 <= i < rows && 0 <= j < cols && target_row + i <= MAX_ROWS && target_col + j
                <= MAX_COLUMNS ==> #[trigger] doc_values(dst_book)[cell_key(
                sheet,
                target_row + i,
                target_col + j,
            )] == clip[i]@[j]@,
    ensures
        forall|i: int, j: int|
            0 <= i < rows && 0 <= j < cols ==> #[trigger] doc_values(dst_book)[cell_key(
                sheet,
                target_row + i,
                target_col + j,
            )] == doc_values(src_book)[cell_key(sheet, min_row + i, min_col + j)],
{
}

proof fn lemma_written_colors_canonical()
    ensures
        is_canonical_argb("FFFFEF00"@),
        is_canonical_argb("FF0000FE"@),
        is_canonical_argb("FF000001"@),
        is_canonical_argb("FFFF0001"@),
        is_canonical_argb("FF008001"@),
        is_canonical_argb("FFFFFFFE"@),
        is_canonical_argb("FFFF00FE"@),
{
    reveal_strlit("FFFFEF00");
    reveal_strlit("FF0000FE");
    reveal_strlit("FF000001");
    reveal_strlit("FFFF0001");
    reveal_strlit("FF008001");
    reveal_strlit("FFFFFFFE");
    reveal_strlit("FFFF00FE");
}

impl App {
    /// Everything except the document, the marks and the status message is
    /// unchanged.
    pub open spec fn mark_only_diff(pre: App, post: App) -> bool {
        &&& post.current_sheet_index == pre.current_sheet_index
        &&& post.cursor == pre.cursor
        &&& post.selection == pre.selection
        &&& post.mode == pre.mode
        &&& post.scroll == pre.scroll
        &&& post.edit_text == pre.edit_text
        &&& post.should_quit == pre.should_quit
        &&& post.column_widths == pre.column_widths
        &&& post.clipboard == pre.clipboard
        &&& post.viewport_size == pre.viewport_size
        &&& post.sheet_select_index == pre.sheet_select_index
    }

    /// The mark the session holds for a cell of the current sheet.
    pub fn get_cell_mark(&self, row: u32, col: u32) -> (m: CellMark)
        ensures
            m == self.mark_at(self.current_sheet_index as int, row as int, col as int),
    {
        let key = mark_key_exec(self.current_sheet_index, row, col);
        match self.cell_marks.get(&key) {
            Some(m) => *m,
            None => CellMark::Unmarked,
        }
    }

    /// Applies one mark to one cell: the marks map is updated (the clearing
    /// mark removes the entry), the cell's font color is set to the mark's
    /// color, a background mark paints its background, the clearing mark
    /// removes any background, and a text mark leaves an existing background
    /// in place. No other cell's style or mark changes.
    fn apply_mark_to_cell(&mut self, row: u32, col: u32, mark: CellMark)
        requires
            old(self).wf(),
            1 <= row <= MAX_ROWS,
            1 <= col <= MAX_COLUMNS,
        ensures
            final(self).wf(),
            App::mark_only_diff(*old(self), *final(self)),
            final(self).status_message == old(self).status_message,
            doc_sheet_names(final(self).book) == doc_sheet_names(old(self).book),
            doc_values(final(self).book) == doc_values(old(self).book),
            doc_formulas(final(self).book) == doc_formulas(old(self).book),
            doc_font(final(self).book)[cell_key(
                old(self).current_sheet_index as int,
                row as int,
                col as int,
            )] == encode_font(mark),
            (encode_bg(mark) matches Some(colr) ==> doc_bg(final(self).book)[cell_key(
                old(self).current_sheet_index as int,
                row as int,
                col as int,
            )] == colr),
            mark == CellMark::Unmarked ==> doc_bg(final(self).book)[cell_key(
                old(self).current_sheet_index as int,
                row as int,
                col as int,
            )] == Seq::<char>::empty(),
            is_text_mark(mark) && doc_bg(old(self).book)[cell_key(
                old(self).current_sheet_index as int,
                row as int,
                col as int,
            )] != Seq::<char>::empty() ==> doc_bg(final(self).book)[cell_key(
                old(self).current_sheet_index as int,
                row as int,
                col as int,
            )] == doc_bg(old(self).book)[cell_key(
                old(self).current_sheet_index as int,
                row as int,
                col as int,
            )],
            forall|k: (int, int, int)|
                k != cell_key(old(self).current_sheet_index as int, row as int, col as int)
                    ==> #[trigger] doc_bg(final(self).book)[k] == doc_bg(old(self).book)[k],
            forall|k: (int, int, int)|
                k != cell_key(old(self).current_sheet_index as int, row as int, col as int)
                    ==> #[trigger] doc_font(final(self).book)[k] == doc_font(old(self).book)[k],
            forall|k: (int, int, int)|
                k != cell_key(old(self).current_sheet_index as int, row as int, col as int)
                    ==> #[trigger] doc_formats(final(self).book)[k] == doc_formats(
                    old(self).book,
                )[k],
            marks_map_at(
                final(self).cell_marks@,
                old(self).current_sheet_index as int,
                row as int,
                col as int,
            ) == mark,
            forall|s2: int, r2: int, c2: int|
                key_space(s2, r2, c2) && (s2, r2, c2) != (
                    old(self).current_sheet_index as int,
                    row as int,
                    col as int,
                ) ==> #[trigger] marks_map_at(final(self).cell_marks@, s2, r2, c2) == marks_map_at(
                    old(self).cell_marks@,
                    s2,
                    r2,
                    c2,
                ),
    {
        let ghost sheet_spec = old(self).current_sheet_index as int;
        let sheet_idx = self.current_sheet_index;
        proof {
            lemma_written_colors_canonical();
        }
        let key = mark_key_exec(sheet_idx, row, col);
        match mark {
            CellMark::Unmarked => {
                self.cell_marks.remove(&key);
                set_cell_font_argb_at(&mut self.book, sheet_idx, row, col, "FF000001");
                clear_cell_bg_at(&mut self.book, sheet_idx, row, col);
            },
            CellMark::YellowBg => {
                self.cell_marks.insert(key, mark);
                set_cell_bg_solid_at(&mut self.book, sheet_idx, row, col, "FFFFEF00");
                set_cell_font_argb_at(&mut self.book, sheet_idx, row, col, "FF000001");
            },
            CellMark::RedText => {
                self.cell_marks.insert(key, mark);
                set_cell_font_argb_at(&mut self.book, sheet_idx, row, col, "FFFF0001");
            },
            CellMark::GreenText => {
                self.cell_marks.insert(key, mark);
                set_cell_font_argb_at(&mut self.book, sheet_idx, row, col, "FF008001");
            },
            CellMark::BlueBg => {
                self.cell_marks.insert(key, mark);
                set_cell_bg_solid_at(&mut self.book, sheet_idx, row, col, "FF0000FE");
                set_cell_font_argb_at(&mut self.book, sheet_idx, row, col, "FFFFFFFE");
            },
            CellMark::MagentaText => {
                self.cell_marks.insert(key, mark);
                set_cell_font_argb_at(&mut self.book, sheet_idx, row, col, "FFFF00FE");
            },
        }
        proof {
            assert forall|s2: int, r2: int, c2: int|
                key_space(s2, r2, c2) && (s2, r2, c2) != (
                    sheet_spec,
                    row as int,
                    col as int,
                ) implies #[trigger] marks_map_at(self.cell_marks@, s2, r2, c2) == marks_map_at(
                old(self).cell_marks@,
                s2,
                r2,
                c2,
            ) by {
                if mark_key(s2, r2, c2) == mark_key(sheet_spec, row as int, col as int) {
                    lemma_mark_key_injective(
                        s2,
                        r2,
                        c2,
                        sheet_spec,
                        row as int,
                        col as int,
                    );
                }
            }
        }
    }

    /// Applies a mark to every cell in the normalized bounds of the current
    /// selection, mirroring it into the document styles, and reports the
    /// number of cells touched. Away from the selected rectangle no mark and
    /// no style changes.
    pub fn set_mark_for_selection(&mut self, mark: CellMark)
        requires
            old(self).wf(),
        ensures
            final(self).wf(),
            App::marked(*old(self), *final(self), mark),
    {
        let ghost pre = *old(self);
        let ghost sheet_spec = old(self).current_sheet_index as int;
        let (min_row, min_col, max_row, max_col) = self.selection.bounds();
        let ghost width = max_col - min_col + 1int;
        let mut count: u32 = 0;
        let mut r = min_row;
        proof {
            assert(count == (r - min_row) * width) by (nonlinear_arith)
                requires
                    count == 0,
                    r == min_row,
            ;
        }
        while r <= max_row
            invariant
                self.wf(),
                App::mark_only_diff(pre, *self),
                pre.wf(),
                min_row == pre.selection.spec_min_row(),
                max_row == pre.selection.spec_max_row(),
                min_col == pre.selection.spec_min_col(),
                max_col == pre.selection.spec_max_col(),
                sheet_spec == pre.current_sheet_index as int,
                width == max_col - min_col + 1,
                min_row <= r <= max_row + 1,
                count == (r - min_row) * width,
                count <= 0x1000000,
                doc_sheet_names(self.book) == doc_sheet_names(pre.book),
                doc_values(self.book) == doc_values(pre.book),
                doc_formulas(self.book) == doc_formulas(pre.book),
                self.status_message == pre.status_message,
                forall|r2: int, c2: int|
                    min_row <= r2 < r && min_col <= c2 <= max_col ==> #[trigger] doc_font(
                        self.book,
                    )[cell_key(sheet_spec, r2, c2)] == encode_font(mark),
                (encode_bg(mark) matches Some(colr) ==> forall|r2: int, c2: int|
                    min_row <= r2 < r && min_col <= c2 <= max_col ==> #[trigger] doc_bg(
                        self.book,
                    )[cell_key(sheet_spec, r2, c2)] == colr),
                mark == CellMark::Unmarked ==> forall|r2: int, c2: int|
                    min_row <= r2 < r && min_col <= c2 <= max_col ==> #[trigger] doc_bg(
                        self.book,
                    )[cell_key(sheet_spec, r2, c2)] == Seq::<char>::empty(),
                is_text_mark(mark) ==> forall|r2: int, c2: int|
                    min_row <= r2 < r && min_col <= c2 <= max_col && doc_bg(pre.book)[cell_key(
                        sheet_spec,
                        r2,
                        c2,
                    )] != Seq::<char>::empty() ==> #[trigger] doc_bg(self.book)[cell_key(
                        sheet_spec,
                        r2,
                        c2,
                    )] == doc_bg(pre.book)[cell_key(sheet_spec, r2, c2)],
                forall|k: (int, int, int)|
                    !(k.0 == sheet_spec && min_row <= k.1 < r && min_col <= k.2 <= max_col)
                        ==> #[trigger] doc_bg(self.book)[k] == doc_bg(pre.book)[k],
                forall|k: (int, int, int)|
                    !(k.0 == sheet_spec && min_row <= k.1 < r && min_col <= k.2 <= max_col)
                        ==> #[trigger] doc_font(self.book)[k] == doc_font(pre.book)[k],
                forall|k: (int, int, int)|
                    !(k.0 == sheet_spec && min_row <= k.1 < r && min_col <= k.2 <= max_col)
                        ==> #[trigger] doc_formats(self.book)[k] == doc_formats(pre.book)[k],
                forall|r2: int, c2: int|
                    min_row <= r2 < r && min_col <= c2 <= max_col ==> #[trigger] marks_map_at(
                        self.cell_marks@,
                        sheet_spec,
                        r2,
                        c2,
                    ) == mark,
                forall|s2: int, r2: int, c2: int|
                    key_space(s2, r2, c2) && !(s2 == sheet_spec && min_row <= r2 < r && min_col
                        <= c2 <= max_col) ==> #[trigger] marks_map_at(
                        self.cell_marks@,
                        s2,
                        r2,
                        c2,
                    ) == marks_map_at(pre.cell_marks@, s2, r2, c2),
            decreases max_row + 1 - r,
        {
            let mut c = min_col;
            while c <= max_col
                invariant
                    self.wf(),
                    App::mark_only_diff(pre, *self),
                    pre.wf(),
                    min_row == pre.selection.spec_min_row(),
                    max_row == pre.selection.spec_max_row(),
                    min_col == pre.selection.spec_min_col(),
                    max_col == pre.selection.spec_max_col(),
                    sheet_spec == pre.current_sheet_index as int,
                    width == max_col - min_col + 1,
                    min_row <= r <= max_row,
                    min_col <= c <= max_col + 1,
                    count == (r - min_row) * width + (c - min_col),
                    count <= 0x1000000,
                    doc_sheet_names(self.book) == doc_sheet_names(pre.book),
                    doc_values(self.book) == doc_values(pre.book),
                    doc_formulas(self.book) == doc_formulas(pre.book),
                    self.status_message == pre.status_message,
                    forall|r2: int, c2: int|
                        (min_row <= r2 < r && min_col <= c2 <= max_col) || (r2 == r && min_col
                            <= c2 < c) ==> #[trigger] doc_font(self.book)[cell_key(
                            sheet_spec,
                            r2,
                            c2,
                        )] == encode_font(mark),
                    (encode_bg(mark) matches Some(colr) ==> forall|r2: int, c2: int|
                        (min_row <= r2 < r && min_col <= c2 <= max_col) || (r2 == r && min_col
                            <= c2 < c) ==> #[trigger] doc_bg(self.book)[cell_key(
                            sheet_spec,
                            r2,
                            c2,
                        )] == colr),
                    mark == CellMark::Unmarked ==> forall|r2: int, c2: int|
                        (min_row <= r2 < r && min_col <= c2 <= max_col) || (r2 == r && min_col
                            <= c2 < c) ==> #[trigger] doc_bg(self.book)[cell_key(
                            sheet_spec,
                            r2,
                            c2,
                        )] == Seq::<char>::empty(),
                    is_text_mark(mark) ==> forall|r2: int, c2: int|
                        ((min_row <= r2 < r && min_col <= c2 <= max_col) || (r2 == r && min_col
                            <= c2 < c)) && doc_bg(pre.book)[cell_key(sheet_spec, r2, c2)]
                            != Seq::<char>::empty() ==> #[trigger] doc_bg(self.book)[cell_key(
                            sheet_spec,
                            r2,
                            c2,
                        )] == doc_bg(pre.book)[cell_key(sheet_spec, r2, c2)],
                    forall|k: (int, int, int)|
                        !(k.0 == sheet_spec && ((min_row <= k.1 < r && min_col <= k.2 <= max_col)
                            || (k.1 == r && min_col <= k.2 < c))) ==> #[trigger] doc_bg(
                            self.book,
                        )[k] == doc_bg(pre.book)[k],
                    forall|k: (int, int, int)|
                        !(k.0 == sheet_spec && ((min_row <= k.1 < r && min_col <= k.2 <= max_col)
                            || (k.1 == r && min_col <= k.2 < c))) ==> #[trigger] doc_font(
                            self.book,
                        )[k] == doc_font(pre.book)[k],
                    forall|k: (int, int, int)|
                        !(k.0 == sheet_spec && ((min_row <= k.1 < r && min_col <= k.2 <= max_col)
                            || (k.1 == r && min_col <= k.2 < c))) ==> #[trigger] doc_formats(
                            self.book,
                        )[k] == doc_formats(pre.book)[k],
                    forall|r2: int, c2: int|
                        (min_row <= r2 < r && min_col <= c2 <= max_col) || (r2 == r && min_col
                            <= c2 < c) ==> #[trigger] marks_map_at(
                            self.cell_marks@,
                            sheet_spec,
                            r2,
                            c2,
                        ) == mark,
                    forall|s2: int, r2: int, c2: int|
                        key_space(s2, r2, c2) && !(s2 == sheet_spec && ((min_row <= r2 < r
                            && min_col <= c2 <= max_col) || (r2 == r && min_col <= c2 < c)))
                            ==> #[trigger] marks_map_at(self.cell_marks@, s2, r2, c2)
                            == marks_map_at(pre.cell_marks@, s2, r2, c2),
                decreases max_col + 1 - c,
            {
                self.apply_mark_to_cell(r, c, mark);
                proof {
                    assert((r - min_row) * width + (c - min_col) + 1 <= 0x1000000)
                        by (nonlinear_arith)
                        requires
                            min_row <= r <= max_row,
                            min_col <= c <= max_col,
                            width == max_col - min_col + 1,
                            1 <= min_row,
                            max_row <= MAX_ROWS,
                            1 <= min_col,
                            max_col <= MAX_COLUMNS,
                            MAX_ROWS == 65536,
                            MAX_COLUMNS == 256,
                    ;
                }
                count += 1;
                c += 1;
            }
            proof {
                assert((r + 1 - min_row) * width == (r - min_row) * width + width)
                    by (nonlinear_arith);
            }
            r += 1;
        }
        self.status_message = Some(StatusMessage::Marked(count, mark));
        proof {
            assert(count == (max_row + 1 - min_row) * width);
        }
    }

    /// Routes one key press to the component the current mode selects and
    /// reports what the caller must still do. The mode machine: navigation
    /// enters edit mode only on the edit key over a non-formula cell and the
    /// sheet picker only on its key; the picker returns to navigation on
    /// cancel (active sheet kept) or confirm (highlighted sheet activated);
    /// edit mode returns to navigation on cancel (text discarded) or on a
    /// commit, which writes the buffer back and advances the cursor. Quitting
    /// only raises the flag; saving is handed back as an action.
    pub fn on_key(&mut self, key: KeyPress) -> (a: Action)
        requires
            old(self).wf(),
        ensures
            final(self).wf(),
            (a == Action::Save) == (old(self).mode == Mode::View && key.ctrl && key.code
                == Key::Char('s')),
            final(self).should_quit == (old(self).should_quit || (old(self).mode == Mode::View
                && key.ctrl && key.code == Key::Char('w'))),
            old(self).mode == Mode::View ==> final(self).mode == Mode::View || (final(self).mode
                == Mode::Edit && key.code == Key::F(2)) || (final(self).mode == Mode::SheetSelect
                && key.code == Key::F(4)),
            old(self).mode == Mode::View && key.code == Key::F(2) && doc_formulas(
                old(self).book,
            )[cell_key(
                old(self).current_sheet_index as int,
                old(self).cursor.0 as int,
                old(self).cursor.1 as int,
            )].len() > 0 ==> final(self).mode == Mode::View,
            old(self).mode == Mode::SheetSelect ==> final(self).mode == (if key.code == Key::Esc
                || key.code == Key::Enter {
                Mode::View
            } else {
                Mode::SheetSelect
            }),
            old(self).mode == Mode::Edit ==> final(self).mode == (if key.code == Key::Esc
                || key.code == Key::Enter || key.code == Key::Tab {
                Mode::View
            } else {
                Mode::Edit
            }),
            old(self).mode == Mode::View ==> App::view_dispatch(
                (App { status_message: None, ..*old(self) }),
                *final(self),
                key,
            ),
            old(self).mode == Mode::SheetSelect ==> App::picker_dispatch(
                (App { status_message: None, ..*old(self) }),
                *final(self),
                key,
            ),
            old(self).mode == Mode::Edit ==> App::edit_dispatch(
                (App { status_message: None, ..*old(self) }),
                *final(self),
                key,
            ),
    {
        self.status_message = None;
        proof {
            assert(*self == (App { status_message: None, ..*old(self) }));
        }
        match self.mode {
            Mode::View => {
                let ctrl = key.ctrl;
                let shift = key.shift;
                match key.code {
                    Key::Char('w') if ctrl => {
                        self.should_quit = true;
                    },
                    Key::Char('s') if ctrl => {
                        return Action::Save;
                    },
                    Key::Char('c') if !ctrl => self.copy_selection(),
                    Key::F(5) => self.copy_selection(),
                    Key::Char('v') if !ctrl => self.paste_clipboard(),
                    Key::F(6) => self.paste_clipboard(),
                    Key::Char('e') if !ctrl && !shift => self.widen_column(),
                    Key::Char('r') if !ctrl && !shift => self.shrink_column(),
                    Key::F(2) => self.enter_edit_mode(),
                    Key::Char('w') if !ctrl && shift => self.move_cursor(0, -1, true),
                    Key::Char('s') if !ctrl && shift => self.move_cursor(0, 1, true),
                    Key::Char('a') if !ctrl && shift => self.move_cursor(-1, 0, true),
                    Key::Char('d') if !ctrl && shift => self.move_cursor(1, 0, true),
                    Key::Char('w') if !ctrl => self.move_cursor(0, -1, false),
                    Key::Char('a') if !ctrl => self.move_cursor(-1, 0, false),
                    Key::Char('s') if !ctrl => self.move_cursor(0, 1, false),
                    Key::Char('d') if !ctrl => self.move_cursor(1, 0, false),
                    Key::Enter if shift => self.move_cursor(0, -1, false),
                    Key::Enter => self.move_cursor(0, 1, false),
                    Key::Left if shift => self.move_cursor(-1, 0, true),
                    Key::Right if shift => self.move_cursor(1, 0, true),
                    Key::Up if shift => self.move_cursor(0, -1, true),
                    Key::Down if shift => self.move_cursor(0, 1, true),
                    Key::Left => self.move_cursor(-1, 0, false),
                    Key::Right => self.move_cursor(1, 0, false),
                    Key::Up => self.move_cursor(0, -1, false),
                    Key::Down => self.move_cursor(0, 1, false),
                    Key::Tab if shift => self.move_cursor(-1, 0, false),
                    Key::Tab => self.move_cursor(1, 0, false),
                    Key::BackTab => self.move_cursor(-1, 0, false),
                    Key::PageUp => self.prev_sheet(),
                    Key::PageDown => self.next_sheet(),
                    Key::Home if ctrl => self.jump_to_start(),
                    Key::End if ctrl => self.jump_to_end(),
                    Key::Home => self.jump_to_row_start(),
                    Key::End => self.jump_to_row_end(),
                    Key::Esc => self.clear_selection(),
                    Key::Char('1') => self.set_mark_for_selection(CellMark::Unmarked),
                    Key::Char('2') => self.set_mark_for_selection(CellMark::YellowBg),
                    Key::Char('3') => self.set_mark_for_selection(CellMark::RedText),
                    Key::Char('4') => self.set_mark_for_selection(CellMark::GreenText),
                    Key::Char('5') => self.set_mark_for_selection(CellMark::BlueBg),
                    Key::Char('6') => self.set_mark_for_selection(CellMark::MagentaText),
                    Key::F(4) => self.enter_sheet_select_mode(),
                    _ => {},
                }
            },
            Mode::SheetSelect => {
                match key.code {
                    Key::Esc => {
                        self.mode = Mode::View;
                    },
                    Key::Enter => self.confirm_sheet_selection(),
                    Key::Char('w') | Key::Up => self.sheet_select_move(-1),
                    Key::Char('s') | Key::Down => self.sheet_select_move(1),
                    _ => {},
                }
            },
            Mode::Edit => {
                match key.code {
                    Key::Esc => {
                        self.mode = Mode::View;
                    },
                    Key::Enter => {
                        self.save_cell_value();
                        self.mode = Mode::View;
                        self.move_cursor(0, 1, false);
                    },
                    Key::Tab => {
                        self.save_cell_value();
                        self.mode = Mode::View;
                        self.move_cursor(1, 0, false);
                    },
                    Key::Char(c) => {
                        self.edit_text.push(c);
                    },
                    Key::Backspace => {
                        self.edit_text.pop();
                    },
                    _ => {},
                }
            },
        }
        Action::Nothing
    }

    /// Everything except the clipboard and the status message is unchanged.
    pub open spec fn copy_only_diff(pre: App, post: App) -> bool {
        &&& post.book == pre.book
        &&& post.current_sheet_index == pre.current_sheet_index
        &&& post.cursor == pre.cursor
        &&& post.selection == pre.selection
        &&& post.mode == pre.mode
        &&& post.scroll == pre.scroll
        &&& post.edit_text == pre.edit_text
        &&& post.should_quit == pre.should_quit
        &&& post.column_widths == pre.column_widths
        &&& post.viewport_size == pre.viewport_size
        &&& post.cell_marks == pre.cell_marks
        &&& post.sheet_select_index == pre.sheet_select_index
    }

    /// Everything except the document and the status message is unchanged.
    pub open spec fn paste_only_diff(pre: App, post: App) -> bool {
        &&& post.current_sheet_index == pre.current_sheet_index
        &&& post.cursor == pre.cursor
        &&& post.selection == pre.selection
        &&& post.mode == pre.mode
        &&& post.scroll == pre.scroll
        &&& post.edit_text == pre.edit_text
        &&& post.should_quit == pre.should_quit
        &&& post.column_widths == pre.column_widths
        &&& post.clipboard == pre.clipboard
        &&& post.viewport_size == pre.viewport_size
        &&& post.cell_marks == pre.cell_marks
        &&& post.sheet_select_index == pre.sheet_select_index
    }

    /// The selection rectangle's raw values were captured into a fresh
    /// rectangular snapshot and the cell count reported; nothing else changed.
    pub open spec fn copied(pre: App, post: App) -> bool {
        &&& App::copy_only_diff(pre, post)
        &&& post.clipboard.data@.len() == pre.selection.spec_max_row()
            - pre.selection.spec_min_row() + 1
        &&& (forall|i: int|
            0 <= i < post.clipboard.data@.len() ==> (#[trigger] post.clipboard.data@[i])@.len()
                == pre.selection.spec_max_col() - pre.selection.spec_min_col() + 1)
        &&& (forall|i: int, j: int|
            0 <= i < post.clipboard.data@.len() && 0 <= j < post.clipboard.data@[0]@.len() ==> (
            #[trigger] post.clipboard.data@[i]@[j])@ == doc_values(pre.book)[cell_key(
                pre.current_sheet_index as int,
                pre.selection.spec_min_row() + i,
                pre.selection.spec_min_col() + j,
            )])
        &&& post.status_message == Some(
            StatusMessage::Copied(
                (((pre.selection.spec_max_row() - pre.selection.spec_min_row() + 1) * (
                pre.selection.spec_max_col() - pre.selection.spec_min_col() + 1)) as u32),
            ),
        )
    }

    /// The snapshot was written at the cursor, row-major, every in-bounds
    /// target getting its exact raw value with any formula removed; cells
    /// outside the in-bounds part of the target rectangle are untouched. An
    /// empty clipboard only reports itself.
    pub open spec fn pasted(pre: App, post: App) -> bool {
        &&& App::paste_only_diff(pre, post)
        &&& (pre.clipboard.data@.len() == 0 ==> post.book == pre.book && post.status_message
            == Some(StatusMessage::ClipboardEmpty))
        &&& (pre.clipboard.data@.len() > 0 ==> {
            let rows = pre.clipboard.data@.len() as int;
            let cols = pre.clipboard.data@[0]@.len() as int;
            let start_row = pre.cursor.0 as int;
            let start_col = pre.cursor.1 as int;
            let sheet = pre.current_sheet_index as int;
            &&& (forall|i: int, j: int|
                0 <= i < rows && 0 <= j < cols && start_row + i <= MAX_ROWS && start_col + j
                    <= MAX_COLUMNS ==> #[trigger] doc_values(post.book)[cell_key(
                    sheet,
                    start_row + i,
                    start_col + j,
                )] == pre.clipboard.data@[i]@[j]@)
            &&& (forall|i: int, j: int|
                0 <= i < rows && 0 <= j < cols && start_row + i <= MAX_ROWS && start_col + j
                    <= MAX_COLUMNS ==> #[trigger] doc_formulas(post.book)[cell_key(
                    sheet,
                    start_row + i,
                    start_col + j,
                )] == Seq::<char>::empty())
            &&& (forall|k: (int, int, int)|
                !(k.0 == sheet && start_row <= k.1 < start_row + rows && start_col <= k.2
                    < start_col + cols && k.1 <= MAX_ROWS && k.2 <= MAX_COLUMNS)
                    ==> #[trigger] doc_values(post.book)[k] == doc_values(pre.book)[k])
            &&& (forall|k: (int, int, int)|
                !(k.0 == sheet && start_row <= k.1 < start_row + rows && start_col <= k.2
                    < start_col + cols && k.1 <= MAX_ROWS && k.2 <= MAX_COLUMNS)
                    ==> #[trigger] doc_formulas(post.book)[k] == doc_formulas(pre.book)[k])
            &&& (forall|k: (int, int, int)|
                !(k.0 == sheet && start_row <= k.1 < start_row + rows && start_col <= k.2
                    < start_col + cols && k.1 <= MAX_ROWS && k.2 <= MAX_COLUMNS)
                    ==> #[trigger] doc_bg(post.book)[k] == doc_bg(pre.book)[k])
            &&& (forall|k: (int, int, int)|
                !(k.0 == sheet && start_row <= k.1 < start_row + rows && start_col <= k.2
                    < start_col + cols && k.1 <= MAX_ROWS && k.2 <= MAX_COLUMNS)
                    ==> #[trigger] doc_font(post.book)[k] == doc_font(pre.book)[k])
            &&& (forall|k: (int, int, int)|
                !(k.0 == sheet && start_row <= k.1 < start_row + rows && start_col <= k.2
                    < start_col + cols && k.1 <= MAX_ROWS && k.2 <= MAX_COLUMNS)
                    ==> #[trigger] doc_formats(post.book)[k] == doc_formats(pre.book)[k])
            &&& doc_sheet_names(post.book) == doc_sheet_names(pre.book)
            &&& post.status_message == Some(StatusMessage::Pasted(rows as u32, cols as u32))
        })
    }

    /// The mark was applied to every cell of the selection rectangle and
    /// mirrored into the document styles; away from the rectangle no mark
    /// and no style changed; the touched count was reported.
    pub open spec fn marked(pre: App, post: App, mark: CellMark) -> bool {
        &&& App::mark_only_diff(pre, post)
        &&& doc_sheet_names(post.book) == doc_sheet_names(pre.book)
        &&& doc_values(post.book) == doc_values(pre.book)
        &&& doc_formulas(post.book) == doc_formulas(pre.book)
        &&& (forall|r: int, c: int|
            in_rect(pre.selection, r, c) ==> #[trigger] doc_font(post.book)[cell_key(
                pre.current_sheet_index as int,
                r,
                c,
            )] == encode_font(mark))
        &&& (encode_bg(mark) matches Some(colr) ==> forall|r: int, c: int|
            in_rect(pre.selection, r, c) ==> #[trigger] doc_bg(post.book)[cell_key(
                pre.current_sheet_index as int,
                r,
                c,
            )] == colr)
        &&& (mark == CellMark::Unmarked ==> forall|r: int, c: int|
            in_rect(pre.selection, r, c) ==> #[trigger] doc_bg(post.book)[cell_key(
                pre.current_sheet_index as int,
                r,
                c,
            )] == Seq::<char>::empty())
        &&& (is_text_mark(mark) ==> forall|r: int, c: int|
            in_rect(pre.selection, r, c) && doc_bg(pre.book)[cell_key(
                pre.current_sheet_index as int,
                r,
                c,
            )] != Seq::<char>::empty() ==> #[trigger] doc_bg(post.book)[cell_key(
                pre.current_sheet_index as int,
                r,
                c,
            )] == doc_bg(pre.book)[cell_key(pre.current_sheet_index as int, r, c)])
        &&& (forall|k: (int, int, int)|
            !(k.0 == pre.current_sheet_index as int && in_rect(pre.selection, k.1, k.2))
                ==> #[trigger] doc_bg(post.book)[k] == doc_bg(pre.book)[k])
        &&& (forall|k: (int, int, int)|
            !(k.0 == pre.current_sheet_index as int && in_rect(pre.selection, k.1, k.2))
                ==> #[trigger] doc_font(post.book)[k] == doc_font(pre.book)[k])
        &&& (forall|k: (int, int, int)|
            !(k.0 == pre.current_sheet_index as int && in_rect(pre.selection, k.1, k.2))
                ==> #[trigger] doc_formats(post.book)[k] == doc_formats(pre.book)[k])
        &&& (forall|r: int, c: int|
            in_rect(pre.selection, r, c) ==> #[trigger] post.mark_at(
                pre.current_sheet_index as int,
                r,
                c,
            ) == mark)
        &&& (forall|s2: int, r2: int, c2: int|
            key_space(s2, r2, c2) && !(s2 == pre.current_sheet_index as int && in_rect(
                pre.selection,
                r2,
                c2,
            )) ==> #[trigger] post.mark_at(s2, r2, c2) == pre.mark_at(s2, r2, c2))
        &&& post.status_message == Some(
            StatusMessage::Marked(
                (((pre.selection.spec_max_row() - pre.selection.spec_min_row() + 1) * (
                pre.selection.spec_max_col() - pre.selection.spec_min_col() + 1)) as u32),
                mark,
            ),
        )
    }

    /// Editing began on the cursor's cell: its raw value became the edit
    /// buffer and the mode switched to edit — unless the cell holds a
    /// formula, in which case nothing changes but a read-only notice carrying
    /// the formula text.
    pub open spec fn edit_entered(pre: App, post: App) -> bool {
        let k = cell_key(pre.current_sheet_index as int, pre.cursor.0 as int, pre.cursor.1 as int);
        &&& post.book == pre.book
        &&& post.current_sheet_index == pre.current_sheet_index
        &&& post.cursor == pre.cursor
        &&& post.selection == pre.selection
        &&& post.scroll == pre.scroll
        &&& post.should_quit == pre.should_quit
        &&& post.column_widths == pre.column_widths
        &&& post.clipboard == pre.clipboard
        &&& post.viewport_size == pre.viewport_size
        &&& post.cell_marks == pre.cell_marks
        &&& post.sheet_select_index == pre.sheet_select_index
        &&& (doc_formulas(pre.book)[k].len() > 0 ==> post.mode == pre.mode && post.edit_text
            == pre.edit_text && (post.status_message matches Some(
            StatusMessage::FormulaReadOnly(f),
        ) && f@ == doc_formulas(pre.book)[k]))
        &&& (doc_formulas(pre.book)[k].len() == 0 ==> post.mode == Mode::Edit && post.edit_text@
            == doc_values(pre.book)[k] && post.status_message == pre.status_message)
    }

    /// The edit buffer was committed: the cursor's cell got the buffer text
    /// as its exact raw value with any formula removed, the mode returned to
    /// navigation, and the cursor advanced by (dx, dy) with the selection
    /// collapsing to it and the scroll following.
    pub open spec fn committed(pre: App, post: App, dx: int, dy: int) -> bool {
        let k = cell_key(pre.current_sheet_index as int, pre.cursor.0 as int, pre.cursor.1 as int);
        &&& doc_values(post.book) == doc_values(pre.book).insert(k, pre.edit_text@)
        &&& doc_formulas(post.book) == doc_formulas(pre.book).insert(k, Seq::<char>::empty())
        &&& doc_sheet_names(post.book) == doc_sheet_names(pre.book)
        &&& (forall|k2: (int, int, int)|
            k2 != k ==> #[trigger] doc_bg(post.book)[k2] == doc_bg(pre.book)[k2])
        &&& (forall|k2: (int, int, int)|
            k2 != k ==> #[trigger] doc_font(post.book)[k2] == doc_font(pre.book)[k2])
        &&& (forall|k2: (int, int, int)|
            k2 != k ==> #[trigger] doc_formats(post.book)[k2] == doc_formats(pre.book)[k2])
        &&& post.mode == Mode::View
        &&& post.cursor.0 == clamp_spec(pre.cursor.0 + dy, 1, MAX_ROWS as int)
        &&& post.cursor.1 == clamp_spec(pre.cursor.1 + dx, 1, MAX_COLUMNS as int)
        &&& post.selection.start == post.cursor
        &&& post.selection.end == post.cursor
        &&& App::scroll_followed(pre, post)
        &&& post.current_sheet_index == pre.current_sheet_index
        &&& post.edit_text == pre.edit_text
        &&& post.should_quit == pre.should_quit
        &&& post.column_widths == pre.column_widths
        &&& post.clipboard == pre.clipboard
        &&& post.status_message == pre.status_message
        &&& post.viewport_size == pre.viewport_size
        &&& post.cell_marks == pre.cell_marks
        &&& post.sheet_select_index == pre.sheet_select_index
    }

    /// One character was appended to the edit buffer; nothing else changed.
    pub open spec fn typed_char(pre: App, post: App, c: char) -> bool {
        &&& post.edit_text@ == pre.edit_text@.push(c)
        &&& post == (App { edit_text: post.edit_text, ..pre })
    }

    /// The last character of the edit buffer was removed, if any; nothing
    /// else changed.
    pub open spec fn erased_char(pre: App, post: App) -> bool {
        &&& post.edit_text@ == (if pre.edit_text@.len() == 0 {
            pre.edit_text@
        } else {
            pre.edit_text@.drop_last()
        })
        &&& post == (App { edit_text: post.edit_text, ..pre })
    }

    /// The picker's highlighted candidate moved cyclically by `delta`;
    /// nothing else changed.
    pub open spec fn picker_moved(pre: App, post: App, delta: int) -> bool {
        &&& post == (App { sheet_select_index: post.sheet_select_index, ..pre })
        &&& post.sheet_select_index == wrap_index(
            pre.sheet_select_index as int,
            delta,
            pre.sheet_count_spec(),
        )
    }

    /// What each key does in navigation mode, given the state with the old
    /// status message already discarded: quit and save are flagged, copy,
    /// paste, width, mark, edit and picker keys invoke their components, the
    /// movement and jump keys move (extending while shift is held), and any
    /// unbound key leaves the state exactly as it is.
    pub open spec fn view_dispatch(pre: App, post: App, key: KeyPress) -> bool {
        match key.code {
            Key::Char(c) => if key.ctrl {
                if c == 'w' {
                    post == (App { should_quit: true, ..pre })
                } else if c == 's' {
                    post == pre
                } else if c == '1' {
                    App::marked(pre, post, CellMark::Unmarked)
                } else if c == '2' {
                    App::marked(pre, post, CellMark::YellowBg)
                } else if c == '3' {
                    App::marked(pre, post, CellMark::RedText)
                } else if c == '4' {
                    App::marked(pre, post, CellMark::GreenText)
                } else if c == '5' {
                    App::marked(pre, post, CellMark::BlueBg)
                } else if c == '6' {
                    App::marked(pre, post, CellMark::MagentaText)
                } else {
                    post == pre
                }
            } else {
                if c == 'c' {
                    App::copied(pre, post)
                } else if c == 'v' {
                    App::pasted(pre, post)
                } else if c == 'e' && !key.shift {
                    App::widened(pre, post)
                } else if c == 'r' && !key.shift {
                    App::shrunk(pre, post)
                } else if c == 'w' {
                    App::moved(pre, post, 0, -1, key.shift)
                } else if c == 'a' {
                    App::moved(pre, post, -1, 0, key.shift)
                } else if c == 's' {
                    App::moved(pre, post, 0, 1, key.shift)
                } else if c == 'd' {
                    App::moved(pre, post, 1, 0, key.shift)
                } else if c == '1' {
                    App::marked(pre, post, CellMark::Unmarked)
                } else if c == '2' {
                    App::marked(pre, post, CellMark::YellowBg)
                } else if c == '3' {
                    App::marked(pre, post, CellMark::RedText)
                } else if c == '4' {
                    App::marked(pre, post, CellMark::GreenText)
                } else if c == '5' {
                    App::marked(pre, post, CellMark::BlueBg)
                } else if c == '6' {
                    App::marked(pre, post, CellMark::MagentaText)
                } else {
                    post == pre
                }
            },
            Key::F(n) => if n == 2 {
                App::edit_entered(pre, post)
            } else if n == 4 {
                post == (App {
                    mode: Mode::SheetSelect,
                    sheet_select_index: pre.current_sheet_index,
                    ..pre
                })
            } else if n == 5 {
                App::copied(pre, post)
            } else if n == 6 {
                App::pasted(pre, post)
            } else {
                post == pre
            },
            Key::Enter => App::moved(
                pre,
                post,
                0,
                if key.shift {
                    -1int
                } else {
                    1int
                },
                false,
            ),
            Key::Left => App::moved(pre, post, -1, 0, key.shift),
            Key::Right => App::moved(pre, post, 1, 0, key.shift),
            Key::Up => App::moved(pre, post, 0, -1, key.shift),
            Key::Down => App::moved(pre, post, 0, 1, key.shift),
            Key::Tab => App::moved(
                pre,
                post,
                if key.shift {
                    -1int
                } else {
                    1int
                },
                0,
                false,
            ),
            Key::BackTab => App::moved(pre, post, -1, 0, false),
            Key::PageUp => App::stepped_prev_sheet(pre, post),
            Key::PageDown => App::stepped_next_sheet(pre, post),
            Key::Home => if key.ctrl {
                App::jumped_to_start(pre, post)
            } else {
                App::jumped_to_row_start(pre, post)
            },
            Key::End => if key.ctrl {
                App::jumped_to_end(pre, post)
            } else {
                App::jumped_to_row_end(pre, post)
            },
            Key::Esc => App::selection_cleared(pre, post),
            Key::Backspace => post == pre,
            Key::Other => post == pre,
        }
    }

    /// What each key does in the sheet picker, given the state with the old
    /// status message already discarded: cancel and confirm return to
    /// navigation, up/down move the highlighted candidate cyclically, and any
    /// other key changes nothing.
    pub open spec fn picker_dispatch(pre: App, post: App, key: KeyPress) -> bool {
        match key.code {
            Key::Esc => post == (App { mode: Mode::View, ..pre }),
            Key::Enter => post == (App {
                mode: Mode::View,
                current_sheet_index: pre.sheet_select_index,
                ..pre
            }),
            Key::Char(c) => if c == 'w' {
                App::picker_moved(pre, post, -1)
            } else if c == 's' {
                App::picker_moved(pre, post, 1)
            } else {
                post == pre
            },
            Key::Up => App::picker_moved(pre, post, -1),
            Key::Down => App::picker_moved(pre, post, 1),
            _ => post == pre,
        }
    }

    /// What each key does in edit mode, given the state with the old status
    /// message already discarded: cancel discards the buffer and writes
    /// nothing, the two commit keys write the buffer back and advance, a
    /// character key types, backspace erases, and any other key changes
    /// nothing.
    pub open spec fn edit_dispatch(pre: App, post: App, key: KeyPress) -> bool {
        match key.code {
            Key::Esc => post == (App { mode: Mode::View, ..pre }),
            Key::Enter => App::committed(pre, post, 0, 1),
            Key::Tab => App::committed(pre, post, 1, 0),
            Key::Char(c) => App::typed_char(pre, post, c),
            Key::Backspace => App::erased_char(pre, post),
            _ => post == pre,
        }
    }

    /// Captures the raw value of every cell in the selection's normalized
    /// bounds into a rectangular row-major snapshot, independent of the
    /// document afterwards, and reports the cell count.
    pub fn copy_selection(&mut self)
        requires
            old(self).wf(),
        ensures
            final(self).wf(),
            App::copied(*old(self), *final(self)),
    {
        let ghost pre = *old(self);
        let (min_row, min_col, max_row, max_col) = self.selection.bounds();
        let sheet_idx = self.current_sheet_index;
        let mut data: Vec<Vec<String>> = Vec::new();
        let mut r = min_row;
        while r <= max_row
            invariant
                self.wf(),
                *self == pre,
                min_row == pre.selection.spec_min_row(),
                max_row == pre.selection.spec_max_row(),
                min_col == pre.selection.spec_min_col(),
                max_col == pre.selection.spec_max_col(),
                sheet_idx == pre.current_sheet_index,
                min_row <= r <= max_row + 1,
                data@.len() == r - min_row,
                forall|i: int|
                    0 <= i < data@.len() ==> (#[trigger] data@[i])@.len() == max_col - min_col
                        + 1,
                forall|i: int, j: int|
                    0 <= i < data@.len() && 0 <= j <= max_col - min_col ==> (
                    #[trigger] data@[i]@[j])@ == doc_values(pre.book)[cell_key(
                        sheet_idx as int,
                        min_row + i,
                        min_col + j,
                    )],
            decreases max_row + 1 - r,
        {
            let mut row_data: Vec<String> = Vec::new();
            let mut c = min_col;
            while c <= max_col
                invariant
                    self.wf(),
                    *self == pre,
                    sheet_idx == pre.current_sheet_index,
                    min_col == pre.selection.spec_min_col(),
                    max_col == pre.selection.spec_max_col(),
                    min_col <= c <= max_col + 1,
                    min_row <= r <= max_row,
                    max_row == pre.selection.spec_max_row(),
                    row_data@.len() == c - min_col,
                    forall|j: int|
                        0 <= j < row_data@.len() ==> (#[trigger] row_data@[j])@ == doc_values(
                            pre.book,
                        )[cell_key(sheet_idx as int, r as int, min_col + j)],
                decreases max_col + 1 - c,
            {
                let value = cell_value_at(&self.book, sheet_idx, r, c);
                row_data.push(value);
                c += 1;
            }
            data.push(row_data);
            r += 1;
        }
        let rows = max_row - min_row + 1;
        let cols = max_col - min_col + 1;
        proof {
            assert(rows * cols <= 0x1000000) by (nonlinear_arith)
                requires
                    1 <= rows <= 65536,
                    1 <= cols <= 256,
            ;
        }
        let cells = rows * cols;
        self.clipboard = Clipboard { data };
        self.status_message = Some(StatusMessage::Copied(cells));
    }

    /// Writes the snapshot's values starting at the cursor, row-major, as
    /// each cell's exact raw value with any formula removed. A target cell
    /// that would fall outside the document bounds is silently skipped; every
    /// cell outside the written rectangle keeps its value, formula and style.
    /// An empty clipboard only reports itself and changes nothing.
    pub fn paste_clipboard(&mut self)
        requires
            old(self).wf(),
        ensures
            final(self).wf(),
            App::pasted(*old(self), *final(self)),
    {
        let ghost pre = *old(self);
        if self.clipboard.data.len() == 0 {
            self.status_message = Some(StatusMessage::ClipboardEmpty);
            return ;
        }
        let (start_row, start_col) = self.cursor;
        let sheet_idx = self.current_sheet_index;
        let rows = self.clipboard.data.len();
        let cols = self.clipboard.data[0].len();
        let mut dr: usize = 0;
        while dr < rows
            invariant
                self.wf(),
                App::paste_only_diff(pre, *self),
                self.status_message == pre.status_message,
                pre.wf(),
                rows == pre.clipboard.data@.len(),
                cols == pre.clipboard.data@[0]@.len(),
                rows >= 1,
                start_row == pre.cursor.0,
                start_col == pre.cursor.1,
                sheet_idx == pre.current_sheet_index,
                dr <= rows,
                doc_sheet_names(self.book) == doc_sheet_names(pre.book),
                forall|i: int, j: int|
                    0 <= i < dr && 0 <= j < cols && start_row + i <= MAX_ROWS && start_col + j
                        <= MAX_COLUMNS ==> #[trigger] doc_values(self.book)[cell_key(
                        sheet_idx as int,
                        start_row + i,
                        start_col + j,
                    )] == pre.clipboard.data@[i]@[j]@,
                forall|i: int, j: int|
                    0 <= i < dr && 0 <= j < cols && start_row + i <= MAX_ROWS && start_col + j
                        <= MAX_COLUMNS ==> #[trigger] doc_formulas(self.book)[cell_key(
                        sheet_idx as int,
                        start_row + i,
                        start_col + j,
                    )] == Seq::<char>::empty(),
                forall|k: (int, int, int)|
                    !(k.0 == sheet_idx as int && start_row <= k.1 < start_row + dr && start_col
                        <= k.2 < start_col + cols && k.1 <= MAX_ROWS && k.2 <= MAX_COLUMNS)
                        ==> #[trigger] doc_values(self.book)[k] == doc_values(pre.book)[k],
                forall|k: (int, int, int)|
                    !(k.0 == sheet_idx as int && start_row <= k.1 < start_row + dr && start_col
                        <= k.2 < start_col + cols && k.1 <= MAX_ROWS && k.2 <= MAX_COLUMNS)
                        ==> #[trigger] doc_formulas(self.book)[k] == doc_formulas(pre.book)[k],
                forall|k: (int, int, int)|
                    !(k.0 == sheet_idx as int && start_row <= k.1 < start_row + dr && start_col
                        <= k.2 < start_col + cols && k.1 <= MAX_ROWS && k.2 <= MAX_COLUMNS)
                        ==> #[trigger] doc_bg(self.book)[k] == doc_bg(pre.book)[k],
                forall|k: (int, int, int)|
                    !(k.0 == sheet_idx as int && start_row <= k.1 < start_row + dr && start_col
                        <= k.2 < start_col + cols && k.1 <= MAX_ROWS && k.2 <= MAX_COLUMNS)
                        ==> #[trigger] doc_font(self.book)[k] == doc_font(pre.book)[k],
                forall|k: (int, int, int)|
                    !(k.0 == sheet_idx as int && start_row <= k.1 < start_row + dr && start_col
                        <= k.2 < start_col + cols && k.1 <= MAX_ROWS && k.2 <= MAX_COLUMNS)
                        ==> #[trigger] doc_formats(self.book)[k] == doc_formats(pre.book)[k],
            decreases rows - dr,
        {
            let mut dc: usize = 0;
            while dc < cols
                invariant
                    self.wf(),
                    App::paste_only_diff(pre, *self),
                    self.status_message == pre.status_message,
                    pre.wf(),
                    rows == pre.clipboard.data@.len(),
                    cols == pre.clipboard.data@[0]@.len(),
                    rows >= 1,
                    start_row == pre.cursor.0,
                    start_col == pre.cursor.1,
                    sheet_idx == pre.current_sheet_index,
                    dr < rows,
                    dc <= cols,
                    doc_sheet_names(self.book) == doc_sheet_names(pre.book),
                    forall|i: int, j: int|
                        ((0 <= i < dr && 0 <= j < cols) || (i == dr && 0 <= j < dc)) && start_row
                            + i <= MAX_ROWS && start_col + j <= MAX_COLUMNS ==> #[trigger] doc_values(
                            self.book,
                        )[cell_key(sheet_idx as int, start_row + i, start_col + j)]
                            == pre.clipboard.data@[i]@[j]@,
                    forall|i: int, j: int|
                        ((0 <= i < dr && 0 <= j < cols) || (i == dr && 0 <= j < dc)) && start_row
                            + i <= MAX_ROWS && start_col + j <= MAX_COLUMNS
                            ==> #[trigger] doc_formulas(self.book)[cell_key(
                            sheet_idx as int,
                            start_row + i,
                            start_col + j,
                        )] == Seq::<char>::empty(),
                    forall|k: (int, int, int)|
                        !(k.0 == sheet_idx as int && ((start_row <= k.1 < start_row + dr
                            && start_col <= k.2 < start_col + cols) || (k.1 == start_row + dr
                            && start_col <= k.2 < start_col + dc)) && k.1 <= MAX_ROWS && k.2
                            <= MAX_COLUMNS) ==> #[trigger] doc_values(self.book)[k] == doc_values(
                            pre.book,
                        )[k],
                    forall|k: (int, int, int)|
                        !(k.0 == sheet_idx as int && ((start_row <= k.1 < start_row + dr
                            && start_col <= k.2 < start_col + cols) || (k.1 == start_row + dr
                            && start_col <= k.2 < start_col + dc)) && k.1 <= MAX_ROWS && k.2
                            <= MAX_COLUMNS) ==> #[trigger] doc_formulas(self.book)[k]
                            == doc_formulas(pre.book)[k],
                    forall|k: (int, int, int)|
                        !(k.0 == sheet_idx as int && ((start_row <= k.1 < start_row + dr
                            && start_col <= k.2 < start_col + cols) || (k.1 == start_row + dr
                            && start_col <= k.2 < start_col + dc)) && k.1 <= MAX_ROWS && k.2
                            <= MAX_COLUMNS) ==> #[trigger] doc_bg(self.book)[k] == doc_bg(
                            pre.book,
                        )[k],
                    forall|k: (int, int, int)|
                        !(k.0 == sheet_idx as int && ((start_row <= k.1 < start_row + dr
                            && start_col <= k.2 < start_col + cols) || (k.1 == start_row + dr
                            && start_col <= k.2 < start_col + dc)) && k.1 <= MAX_ROWS && k.2
                            <= MAX_COLUMNS) ==> #[trigger] doc_font(self.book)[k] == doc_font(
                            pre.book,
                        )[k],
                    forall|k: (int, int, int)|
                        !(k.0 == sheet_idx as int && ((start_row <= k.1 < start_row + dr
                            && start_col <= k.2 < start_col + cols) || (k.1 == start_row + dr
                            && start_col <= k.2 < start_col + dc)) && k.1 <= MAX_ROWS && k.2
                            <= MAX_COLUMNS) ==> #[trigger] doc_formats(self.book)[k]
                            == doc_formats(pre.book)[k],
                decreases cols - dc,
            {
                let target_row = start_row + dr as u32;
                let target_col = start_col + dc as u32;
                if target_row <= MAX_ROWS && target_col <= MAX_COLUMNS {
                    let value = self.clipboard.data[dr][dc].clone();
                    set_cell_value_at(
                        &mut self.book,
                        sheet_idx,
                        target_row,
                        target_col,
                        value.as_str(),
                    );
                }
                dc += 1;
            }
            dr += 1;
        }
        self.status_message = Some(StatusMessage::Pasted(rows as u32, cols as u32));
    }

    /// What a cell resolves to before truncation: a formula cell shows its
    /// cached result, or a pending placeholder when that is empty; otherwise
    /// the raw value, formatted when a date/time or other number format
    /// applies, with the two sentinel codes applying none.
    pub open spec fn raw_display_spec(self, row: int, col: int) -> Seq<char> {
        let k = cell_key(self.current_sheet_index as int, row, col);
        let v = doc_values(self.book)[k];
        let f = doc_formulas(self.book)[k];
        if f.len() > 0 {
            if v.len() == 0 {
                "=..."@
            } else {
                v
            }
        } else {
            match doc_formats(self.book)[k] {
                Some(code) => if crate::format::is_date_code(code) {
                    if crate::format::spec_date_serial(v) {
                        formatted_of(v, crate::format::normalized_date_code(code))
                    } else {
                        v
                    }
                } else if code != crate::format::general_code()
                    && crate::format::plain_numeric_code(code) {
                    formatted_of(v, code)
                } else {
                    v
                },
                None => v,
            }
        }
    }

    /// Whether the cell at (col, row) of the current sheet holds a formula.
    pub fn is_formula_cell(&self, col: u32, row: u32) -> (r: bool)
        requires
            self.wf(),
        ensures
            r == (doc_formulas(self.book)[cell_key(
                self.current_sheet_index as int,
                row as int,
                col as int,
            )].len() > 0),
    {
        let formula = cell_formula_at(&self.book, self.current_sheet_index, row, col);
        formula.as_str().unicode_len() > 0
    }

    /// The string shown for a cell: its resolved display value, truncated to
    /// the column's display width with a trailing marker when longer.
    pub fn get_cell_display(&self, col: u32, row: u32) -> (r: String)
        requires
            self.wf(),
        ensures
            r@ == crate::format::truncate_display(
                self.raw_display_spec(row as int, col as int),
                self.col_width_spec(col) as int,
            ),
    {
        let sheet_idx = self.current_sheet_index;
        let width = self.get_column_width(col) as usize;
        let formula = cell_formula_at(&self.book, sheet_idx, row, col);
        let display_value: String = if formula.as_str().unicode_len() > 0 {
            let result = cell_value_at(&self.book, sheet_idx, row, col);
            if result.as_str().unicode_len() == 0 {
                String::from_str("=...")
            } else {
                result
            }
        } else {
            let raw_value = cell_value_at(&self.book, sheet_idx, row, col);
            match cell_format_code_at(&self.book, sheet_idx, row, col) {
                Some(code) => {
                    if crate::format::is_date_format(code.as_str()) {
                        if crate::format::is_date_serial(raw_value.as_str()) {
                            let iso = crate::format::normalize_date_format(code.as_str());
                            format_value(raw_value.as_str(), iso)
                        } else {
                            raw_value
                        }
                    } else if !crate::format::str_eq(code.as_str(), "General")
                        && crate::format::is_plain_numeric_code(code.as_str()) {
                        format_value(raw_value.as_str(), code.as_str())
                    } else {
                        raw_value
                    }
                },
                None => raw_value,
            }
        };
        let shown = display_value.as_str().unicode_len();
        if shown > width {
            let keep = if width >= 1 {
                width - 1
            } else {
                0
            };
            let prefix = display_value.as_str().substring_char(0, keep);
            String::from_str(prefix).concat("~")
        } else {
            display_value
        }
    }

    /// Starts editing the cursor's cell: its raw value becomes the edit
    /// buffer. A formula cell is read-only; instead of editing, its formula
    /// text is surfaced as a status notice and nothing else changes.
    pub fn enter_edit_mode(&mut self)
        requires
            old(self).wf(),
        ensures
            final(self).wf(),
            App::edit_entered(*old(self), *final(self)),
    {
        let (row, col) = self.cursor;
        let formula = cell_formula_at(&self.book, self.current_sheet_index, row, col);
        if formula.as_str().unicode_len() > 0 {
            self.status_message = Some(StatusMessage::FormulaReadOnly(formula));
            return ;
        }
        self.mode = Mode::Edit;
        self.edit_text = cell_value_at(&self.book, self.current_sheet_index, row, col);
    }

    /// Writes the edit buffer back as the cursor cell's raw value, replacing
    /// any formula the cell held.
    pub fn save_cell_value(&mut self)
        requires
            old(self).wf(),
        ensures
            final(self).wf(),
            App::paste_only_diff(*old(self), *final(self)),
            final(self).status_message == old(self).status_message,
            doc_sheet_names(final(self).book) == doc_sheet_names(old(self).book),
            doc_values(final(self).book) == doc_values(old(self).book).insert(
                cell_key(
                    old(self).current_sheet_index as int,
                    old(self).cursor.0 as int,
                    old(self).cursor.1 as int,
                ),
                old(self).edit_text@,
            ),
            doc_formulas(final(self).book) == doc_formulas(old(self).book).insert(
                cell_key(
                    old(self).current_sheet_index as int,
                    old(self).cursor.0 as int,
                    old(self).cursor.1 as int,
                ),
                Seq::<char>::empty(),
            ),
            forall|k: (int, int, int)|
                k != cell_key(
                    old(self).current_sheet_index as int,
                    old(self).cursor.0 as int,
                    old(self).cursor.1 as int,
                ) ==> #[trigger] doc_bg(final(self).book)[k] == doc_bg(old(self).book)[k],
            forall|k: (int, int, int)|
                k != cell_key(
                    old(self).current_sheet_index as int,
                    old(self).cursor.0 as int,
                    old(self).cursor.1 as int,
                ) ==> #[trigger] doc_font(final(self).book)[k] == doc_font(old(self).book)[k],
            forall|k: (int, int, int)|
                k != cell_key(
                    old(self).current_sheet_index as int,
                    old(self).cursor.0 as int,
                    old(self).cursor.1 as int,
                ) ==> #[trigger] doc_formats(final(self).book)[k] == doc_formats(
                    old(self).book,
                )[k],
    {
        let (row, col) = self.cursor;
        let content = self.edit_text.clone();
        set_cell_value_at(&mut self.book, self.current_sheet_index, row, col, content.as_str());
    }

    /// The names of the document's sheets, in order.
    pub fn get_sheet_names(&self) -> (names: Vec<String>)
        requires
            self.wf(),
        ensures
            names@.len() == doc_sheet_names(self.book).len(),
            forall|i: int|
                0 <= i < names@.len() ==> (#[trigger] names@[i])@ == doc_sheet_names(self.book)[i],
    {
        let count = sheet_count(&self.book);
        let mut names: Vec<String> = Vec::new();
        let mut i: usize = 0;
        while i < count
            invariant
                count == doc_sheet_names(self.book).len(),
                i <= count,
                names@.len() == i,
                forall|j: int|
                    0 <= j < i ==> (#[trigger] names@[j])@ == doc_sheet_names(self.book)[j],
            decreases count - i,
        {
            names.push(sheet_name(&self.book, i));
            i += 1;
        }
        names
    }

    /// A fresh session over the given document: cursor at the origin in
    /// navigation mode, nothing scrolled, no explicit column widths, an empty
    /// clipboard, and the cell marks decoded from the style colors the
    /// document already holds.
    pub fn new(book: Workbook) -> (app: App)
        requires
            doc_ready(book),
            doc_sheet_names(book).len() >= 1,
        ensures
            app.wf(),
            app.book == book,
            app.current_sheet_index == 0,
            app.cursor == (1u32, 1u32),
            app.selection.start == (1u32, 1u32),
            app.selection.end == (1u32, 1u32),
            app.mode == Mode::View,
            app.scroll == (0u32, 0u32),
            app.edit_text@.len() == 0,
            app.should_quit == false,
            app.column_widths@ == Map::<u32, u16>::empty(),
            app.clipboard.data@.len() == 0,
            app.status_message is None,
            app.viewport_size == (20u16, 10u16),
            app.sheet_select_index == 0,
            forall|s: int, rr: int, cc: int|
                0 <= s < doc_sheet_names(book).len() && key_space(s, rr, cc)
                    ==> #[trigger] app.mark_at(s, rr, cc) == decode_mark(
                    doc_bg(book)[cell_key(s, rr, cc)],
                    doc_font(book)[cell_key(s, rr, cc)],
                ),
    {
        let mut cell_marks: HashMap<u128, CellMark> = HashMap::new();
        let count = sheet_count(&book);
        let mut si: usize = 0;
        while si < count
            invariant
                doc_ready(book),
                count == doc_sheet_names(book).len(),
                si <= count,
                forall|s: int, rr: int, cc: int|
                    0 <= s < si && key_space(s, rr, cc) ==> #[trigger] marks_map_at(
                        cell_marks@,
                        s,
                        rr,
                        cc,
                    ) == decode_mark(doc_bg(book)[cell_key(s, rr, cc)], doc_font(book)[cell_key(
                        s,
                        rr,
                        cc,
                    )]),
                forall|s: int, rr: int, cc: int|
                    s >= si && key_space(s, rr, cc) ==> !cell_marks@.contains_key(
                        #[trigger] (mark_key(s, rr, cc) as u128),
                    ),
            decreases count - si,
        {
            let coords = used_cells(&book, si);
            let mut k: usize = 0;
            while k < coords.len()
                invariant
                    doc_ready(book),
                    count == doc_sheet_names(book).len(),
                    si < count,
                    k <= coords.len(),
                    forall|s: int, rr: int, cc: int|
                        0 <= s < si && key_space(s, rr, cc) ==> #[trigger] marks_map_at(
                            cell_marks@,
                            s,
                            rr,
                            cc,
                        ) == decode_mark(
                            doc_bg(book)[cell_key(s, rr, cc)],
                            doc_font(book)[cell_key(s, rr, cc)],
                        ),
                    forall|rr: u32, cc: u32|
                        coords@.take(k as int).contains((rr, cc)) ==> marks_map_at(
                            cell_marks@,
                            si as int,
                            rr as int,
                            cc as int,
                        ) == decode_mark(
                            doc_bg(book)[cell_key(si as int, rr as int, cc as int)],
                            doc_font(book)[cell_key(si as int, rr as int, cc as int)],
                        ),
                    forall|rr: u32, cc: u32|
                        !coords@.take(k as int).contains((rr, cc)) ==> !cell_marks@.contains_key(
                            #[trigger] (mark_key(si as int, rr as int, cc as int) as u128),
                        ),
                    forall|s: int, rr: int, cc: int|
                        s > si && key_space(s, rr, cc) ==> !cell_marks@.contains_key(
                            #[trigger] (mark_key(s, rr, cc) as u128),
                        ),
                decreases coords.len() - k,
            {
                let (rr, cc) = coords[k];
                let bg = cell_bg_argb_at(&book, si, rr, cc);
                let bg_mark = argb_to_bg_mark(bg.as_str());
                let m = if !matches!(bg_mark, CellMark::Unmarked) {
                    bg_mark
                } else {
                    let font = cell_font_argb_at(&book, si, rr, cc);
                    argb_to_font_mark(font.as_str())
                };
                let ghost marks_before = cell_marks@;
                if !matches!(m, CellMark::Unmarked) {
                    let key = mark_key_exec(si, rr, cc);
                    proof {
                        lemma_mark_key_bounds(si as int, rr as int, cc as int);
                    }
                    cell_marks.insert(key, m);
                    proof {
                        assert(cell_marks@ == marks_before.insert(
                            mark_key(si as int, rr as int, cc as int) as u128,
                            m,
                        ));
                    }
                }
                proof {
                    let ghost here = (si as int, rr as int, cc as int);
                    assert(coords@.take(k as int + 1) =~= coords@.take(k as int).push(
                        coords@[k as int],
                    ));
                    assert(m == decode_mark(
                        doc_bg(book)[cell_key(si as int, rr as int, cc as int)],
                        doc_font(book)[cell_key(si as int, rr as int, cc as int)],
                    ));
                    if matches!(m, CellMark::Unmarked) {
                        if !coords@.take(k as int).contains((rr, cc)) {
                            assert(!marks_before.contains_key(
                                mark_key(si as int, rr as int, cc as int) as u128,
                            ));
                        }
                        assert(marks_map_at(cell_marks@, si as int, rr as int, cc as int) == m);
                    } else {
                        lemma_mark_key_bounds(si as int, rr as int, cc as int);
                        assert(marks_map_at(cell_marks@, si as int, rr as int, cc as int) == m);
                    }
                    assert forall|s2: int, r2: int, c2: int|
                        key_space(s2, r2, c2) && (s2, r2, c2) != here implies #[trigger]
                        marks_map_at(cell_marks@, s2, r2, c2) == marks_map_at(
                        marks_before,
                        s2,
                        r2,
                        c2,
                    ) && cell_marks@.contains_key(mark_key(s2, r2, c2) as u128)
                        == marks_before.contains_key(mark_key(s2, r2, c2) as u128) by {
                        if !matches!(m, CellMark::Unmarked) {
                            lemma_marks_map_insert_other(
                                marks_before,
                                si as int,
                                rr as int,
                                cc as int,
                                m,
                                s2,
                                r2,
                                c2,
                            );
                        }
                    }
                    assert forall|r2: u32, c2: u32|
                        coords@.take(k as int + 1).contains((r2, c2)) implies marks_map_at(
                        cell_marks@,
                        si as int,
                        r2 as int,
                        c2 as int,
                    ) == decode_mark(
                        doc_bg(book)[cell_key(si as int, r2 as int, c2 as int)],
                        doc_font(book)[cell_key(si as int, r2 as int, c2 as int)],
                    ) by {
                        if r2 == rr && c2 == cc {
                        } else {
                            assert(coords@.take(k as int).contains((r2, c2)));
                            assert((si as int, r2 as int, c2 as int) != here);
                        }
                    }
                    assert forall|r2: u32, c2: u32|
                        !coords@.take(k as int + 1).contains((r2, c2))
                        implies !cell_marks@.contains_key(
                        mark_key(si as int, r2 as int, c2 as int) as u128,
                    ) by {
                        assert(!coords@.take(k as int).contains((r2, c2)));
                        assert((r2, c2) != (rr, cc));
                        assert((si as int, r2 as int, c2 as int) != here);
                    }
                }
                k += 1;
            }
            proof {
                assert(coords@.take(coords.len() as int) =~= coords@);
                assert forall|s: int, rr: int, cc: int|
                    0 <= s < si + 1 && key_space(s, rr, cc) implies #[trigger] marks_map_at(
                    cell_marks@,
                    s,
                    rr,
                    cc,
                ) == decode_mark(doc_bg(book)[cell_key(s, rr, cc)], doc_font(book)[cell_key(
                    s,
                    rr,
                    cc,
                )]) by {
                    if s == si {
                        let r32 = rr as u32;
                        let c32 = cc as u32;
                        assert(rr == r32 as int && cc == c32 as int);
                        if !coords@.contains((r32, c32)) {
                            assert(doc_bg(book)[cell_key(s, rr, cc)] == Seq::<char>::empty());
                            assert(doc_font(book)[cell_key(s, rr, cc)] == Seq::<char>::empty());
                        }
                    }
                }
            }
            si += 1;
        }
        App {
            book,
            current_sheet_index: 0,
            cursor: (1, 1),
            selection: Selection::single(1, 1),
            mode: Mode::View,
            scroll: (0, 0),
            edit_text: String::new(),
            should_quit: false,
            column_widths: HashMap::new(),
            clipboard: Clipboard { data: Vec::new() },
            status_message: None,
            viewport_size: (20, 10),
            cell_marks,
            sheet_select_index: 0,
        }
    }
}

proof fn lemma_mark_key_bounds(s: int, r: int, c: int)
    requires
        key_space(s, r, c),
    ensures
        0 <= mark_key(s, r, c) < 0x1_0000_0000_0000_0000_0000_0000_0000_0000,
{
    assert((s * 0x1_0000_0000 + r) * 0x1_0000_0000 + c
        < 0x1_0000_0000_0000_0000_0000_0000_0000_0000 && 0 <= (s * 0x1_0000_0000 + r)
        * 0x1_0000_0000 + c) by (nonlinear_arith)
        requires
            key_space(s, r, c),
    ;
}

/// Storing one cell's mark leaves every other cell's mark and map entry
/// untouched.
proof fn lemma_marks_map_insert_other(
    m: Map<u128, CellMark>,
    s: int,
    r: int,
    c: int,
    v: CellMark,
    s2: int,
    r2: int,
    c2: int,
)
    requires
        key_space(s, r, c),
        key_space(s2, r2, c2),
        (s2, r2, c2) != (s, r, c),
    ensures
        marks_map_at(m.insert(mark_key(s, r, c) as u128, v), s2, r2, c2) == marks_map_at(
            m,
            s2,
            r2,
            c2,
        ),
        m.insert(mark_key(s, r, c) as u128, v).contains_key(mark_key(s2, r2, c2) as u128)
            == m.contains_key(mark_key(s2, r2, c2) as u128),
{
    lemma_mark_key_bounds(s, r, c);
    lemma_mark_key_bounds(s2, r2, c2);
    if mark_key(s2, r2, c2) == mark_key(s, r, c) {
        lemma_mark_key_injective(s2, r2, c2, s, r, c);
    }
}

} // verus!
