//! Mouse selection support for the terminal.
//!
//! This module provides:
//! - Mouse tracking mode flags (CSI ?1000h and CSI ?1001h)
//! - Click and drag selection state
//! - Extraction of the selected text from a grid's rows

use vstd::prelude::*;

use crate::terminal::grid::Cell;
use crate::terminal::grid::Cursor;
use crate::util::is_white;
use crate::util::char_is_whitespace;
use crate::util::push_char;

verus! {

/// Mouse tracking mode flags
#[derive(Debug, Clone, Copy, PartialEq, Eq, Structural)]
pub struct MouseMode {
    /// Track button press and release events (CSI ?1000h)
    pub button_tracking: bool,
    /// Track button press events only (CSI ?1001h)
    pub button_press_only: bool,
}

impl Default for MouseMode {
    fn default() -> (r: Self)
        ensures
            r == (MouseMode { button_tracking: false, button_press_only: false }),
    {
        MouseMode { button_tracking: false, button_press_only: false }
    }
}

impl MouseMode {
    /// Check if mouse tracking is enabled
    pub fn is_enabled(&self) -> (r: bool)
        ensures
            r == (self.button_tracking || self.button_press_only),
    {
        self.button_tracking || self.button_press_only
    }

    /// Enable button tracking (CSI ?1000h)
    pub fn enable_button_tracking(&mut self)
        ensures
            *final(self) == (MouseMode { button_tracking: true, ..*old(self) }),
    {
        self.button_tracking = true;
    }

    /// Disable button tracking (CSI ?1000l)
    pub fn disable_button_tracking(&mut self)
        ensures
            *final(self) == (MouseMode { button_tracking: false, ..*old(self) }),
    {
        self.button_tracking = false;
    }

    /// Enable button press only tracking (CSI ?1001h)
    pub fn enable_button_press_only(&mut self)
        ensures
            *final(self) == (MouseMode { button_press_only: true, ..*old(self) }),
    {
        self.button_press_only = true;
    }

    /// Disable button press only tracking (CSI ?1001l)
    pub fn disable_button_press_only(&mut self)
        ensures
            *final(self) == (MouseMode { button_press_only: false, ..*old(self) }),
    {
        self.button_press_only = false;
    }

    /// Disable all mouse tracking
    pub fn disable_all(&mut self)
        ensures
            *final(self) == (MouseMode { button_tracking: false, button_press_only: false }),
    {
        self.button_tracking = false;
        self.button_press_only = false;
    }
}

/// Selection region defined by start and end positions
#[derive(Debug, Clone, Copy, PartialEq, Eq, Structural)]
pub struct SelectionRegion {
    /// Start position (inclusive)
    pub start: Cursor,
    /// End position (inclusive)
    pub end: Cursor,
    /// Whether this selection has been initialized (distinguishes from "no selection")
    pub active: bool,
}

/// `a` comes at or before `b` in reading order.
pub open spec fn pos_le(a: Cursor, b: Cursor) -> bool {
    a.row < b.row || (a.row == b.row && a.col <= b.col)
}

impl SelectionRegion {
    /// Create a new selection region, normalized so the start comes first.
    pub fn new(start: Cursor, end: Cursor) -> (r: Self)
        ensures
            pos_le(start, end) ==> r == (SelectionRegion { start, end, active: true }),
            !pos_le(start, end) ==> r == (SelectionRegion { start: end, end: start, active: true }),
    {
        // Normalize so start is always before end
        let (start, end) = if start.row < end.row || (start.row == end.row && start.col
            <= end.col) {
            (start, end)
        } else {
            (end, start)
        };
        // Explicitly created regions are always active
        Self { start, end, active: true }
    }

    /// Create an empty selection region
    pub fn empty() -> (r: Self)
        ensures
            r == (SelectionRegion {
                start: Cursor { row: 0, col: 0 },
                end: Cursor { row: 0, col: 0 },
                active: false,
            }),
    {
        Self { start: Cursor::origin(), end: Cursor::origin(), active: false }
    }

    /// Check if the selection is empty (not active)
    pub fn is_empty(&self) -> (r: bool)
        ensures
            r == !self.active,
    {
        !self.active
    }

    /// Whether `pos` lies inside the selection.
    pub open spec fn spec_contains(self, pos: Cursor) -> bool {
        &&& self.active
        &&& self.start.row <= pos.row <= self.end.row
        &&& !(pos.row == self.start.row && pos.col < self.start.col)
        &&& !(pos.row == self.end.row && pos.col > self.end.col)
    }

    /// Check if a position is within the selection
    pub fn contains(&self, pos: Cursor) -> (r: bool)
        ensures
            r == self.spec_contains(pos),
    {
        if self.is_empty() {
            return false;
        }
        if pos.row >= self.start.row && pos.row <= self.end.row {
            if pos.row == self.start.row && pos.col < self.start.col {
                return false;
            }
            if pos.row == self.end.row && pos.col > self.end.col {
                return false;
            }
            return true;
        }
        false
    }

    /// Get the range of columns for a given row: the selection's own columns
    /// on its edge rows, the whole line (to `usize::MAX`) in between.
    pub fn cols_for_row(&self, row: usize) -> (r: Option<(usize, usize)>)
        ensures
            (r is Some) == (self.active && self.start.row <= row <= self.end.row),
            r is Some ==> (r->0).0 == (if row == self.start.row {
                self.start.col
            } else {
                0
            }),
            r is Some ==> (r->0).1 == (if row == self.end.row {
                self.end.col
            } else {
                usize::MAX
            }),
    {
        if self.is_empty() {
            return None;
        }
        if row < self.start.row || row > self.end.row {
            return None;
        }
        let start_col = if row == self.start.row {
            self.start.col
        } else {
            0
        };
        let end_col = if row == self.end.row {
            self.end.col
        } else {
            usize::MAX
        };
        Some((start_col, end_col))
    }
}

impl Default for SelectionRegion {
    fn default() -> (r: Self)
        ensures
            r == (SelectionRegion {
                start: Cursor { row: 0, col: 0 },
                end: Cursor { row: 0, col: 0 },
                active: false,
            }),
    {
        Self::empty()
    }
}

/// Selection state
#[derive(Debug, Clone)]
pub struct SelectionState {
    /// Current selection region (if any)
    pub region: SelectionRegion,
    /// Whether we're currently dragging to select
    pub selecting: bool,
    /// Mouse tracking mode
    pub mouse_mode: MouseMode,
}

impl Default for SelectionState {
    fn default() -> (r: Self)
        ensures
            r.region == (SelectionRegion {
                start: Cursor { row: 0, col: 0 },
                end: Cursor { row: 0, col: 0 },
                active: false,
            }),
            !r.selecting,
            r.mouse_mode == (MouseMode { button_tracking: false, button_press_only: false }),
    {
        SelectionState {
            region: SelectionRegion::empty(),
            selecting: false,
            mouse_mode: MouseMode::default(),
        }
    }
}

impl SelectionState {
    /// Create a new selection state
    pub fn new() -> (r: Self)
        ensures
            r.region == (SelectionRegion {
                start: Cursor { row: 0, col: 0 },
                end: Cursor { row: 0, col: 0 },
                active: false,
            }),
            !r.selecting,
            r.mouse_mode == (MouseMode { button_tracking: false, button_press_only: false }),
    {
        Self::default()
    }

    /// Start a selection at the given position. The region stays inactive
    /// until the user drags to a different position.
    pub fn start_selection(&mut self, pos: Cursor)
        ensures
            final(self).region == (SelectionRegion { start: pos, end: pos, active: false }),
            final(self).selecting,
            final(self).mouse_mode == old(self).mouse_mode,
    {
        self.region = SelectionRegion { start: pos, end: pos, active: false };
        self.selecting = true;
    }

    /// Update the selection to include a new position, keeping the region
    /// normalized; a no-op when not dragging.
    pub fn update_selection(&mut self, pos: Cursor)
        ensures
            !old(self).selecting ==> *final(self) == *old(self),
            old(self).selecting ==> final(self).region == (SelectionRegion {
                start: if pos_le(old(self).region.start, pos) {
                    old(self).region.start
                } else {
                    pos
                },
                end: if pos_le(old(self).region.start, pos) {
                    pos
                } else {
                    old(self).region.start
                },
                active: old(self).region.start != pos,
            }),
            final(self).selecting == old(self).selecting,
            final(self).mouse_mode == old(self).mouse_mode,
    {
        if self.selecting {
            let anchor = self.region.start;
            let (start, end) = if anchor.row < pos.row || (anchor.row == pos.row && anchor.col
                <= pos.col) {
                (anchor, pos)
            } else {
                (pos, anchor)
            };
            // Active only if dragged to a different position
            self.region = SelectionRegion { start, end, active: anchor != pos };
        }
    }

    /// End the selection
    pub fn end_selection(&mut self)
        ensures
            !final(self).selecting,
            final(self).region == old(self).region,
            final(self).mouse_mode == old(self).mouse_mode,
    {
        self.selecting = false;
    }

    /// Clear the selection
    pub fn clear(&mut self)
        ensures
            final(self).region == (SelectionRegion {
                start: Cursor { row: 0, col: 0 },
                end: Cursor { row: 0, col: 0 },
                active: false,
            }),
            !final(self).selecting,
            final(self).mouse_mode == old(self).mouse_mode,
    {
        self.region = SelectionRegion::empty();
        self.selecting = false;
    }

    /// Check if there's an active selection
    pub fn has_selection(&self) -> (r: bool)
        ensures
            r == self.region.active,
    {
        !self.region.is_empty()
    }
}

/// The index of the first non-whitespace cell at or after `i`, or the length
/// when the rest is all whitespace.
pub open spec fn first_non_ws(s: Seq<Cell>, i: int) -> int
    decreases s.len() - i,
{
    if i < 0 || i >= s.len() {
        s.len() as int
    } else if !is_white(s[i].char) {
        i
    } else {
        first_non_ws(s, i + 1)
    }
}

/// The index of the last non-whitespace cell at or before `i`, or -1 when
/// everything up to `i` is whitespace.
pub open spec fn last_non_ws(s: Seq<Cell>, i: int) -> int
    decreases i + 1,
{
    if i < 0 || i >= s.len() {
        -1
    } else if !is_white(s[i].char) {
        i
    } else {
        last_non_ws(s, i - 1)
    }
}

/// The characters one row contributes to a selection covering its columns
/// `[es, ee]`: clamped to the row, optionally trimmed of leading and
/// trailing whitespace.
pub open spec fn sel_row_chars(
    row: Seq<Cell>,
    es: int,
    ee: int,
    trim_lead: bool,
    trim_trail: bool,
) -> Seq<char> {
    if row.len() == 0 || es > ee || es < 0 || es >= row.len() {
        Seq::empty()
    } else {
        let ae = if ee < row.len() - 1 {
            ee
        } else {
            row.len() - 1
        };
        let s = row.subrange(es, ae + 1);
        let lo = if trim_lead {
            first_non_ws(s, 0)
        } else {
            0
        };
        let hi = if trim_trail {
            last_non_ws(s, s.len() - 1)
        } else {
            s.len() - 1
        };
        if lo > hi {
            Seq::empty()
        } else {
            s.subrange(lo, hi + 1).map_values(|c: Cell| c.char)
        }
    }
}

/// The starting column a selection covers on each row: the smaller corner
/// column across multi-row selections, the start column on a single row.
pub open spec fn sel_col_start(sel: SelectionRegion) -> int {
    if sel.start.row != sel.end.row {
        if sel.start.col <= sel.end.col {
            sel.start.col as int
        } else {
            sel.end.col as int
        }
    } else {
        sel.start.col as int
    }
}

/// The ending column a selection covers on each row.
pub open spec fn sel_col_end(sel: SelectionRegion) -> int {
    if sel.start.row != sel.end.row {
        if sel.start.col <= sel.end.col {
            sel.end.col as int
        } else {
            sel.start.col as int
        }
    } else {
        sel.end.col as int
    }
}

/// The text of the selection over rows `sel.start.row ..= upto`, with rows
/// separated by a newline (except after the grid's last row).
pub open spec fn sel_text_upto(
    grid: Seq<Seq<Cell>>,
    sel: SelectionRegion,
    trim: bool,
    upto: int,
) -> Seq<char>
    decreases upto - sel.start.row + 1,
{
    if upto < sel.start.row || upto < 0 {
        Seq::empty()
    } else {
        let row_part = sel_row_chars(
            grid[upto],
            sel_col_start(sel),
            sel_col_end(sel),
            trim && upto == sel.start.row,
            trim && upto == sel.end.row,
        );
        let nl: Seq<char> = if upto < sel.end.row && upto < grid.len() - 1 {
            seq!['\n']
        } else {
            Seq::empty()
        };
        sel_text_upto(grid, sel, trim, upto - 1) + row_part + nl
    }
}

/// The full text of a selection on a grid: nothing for an inactive
/// selection or an empty grid.
pub open spec fn sel_text(grid: Seq<Seq<Cell>>, sel: SelectionRegion, trim: bool) -> Seq<char> {
    if !sel.active || grid.len() == 0 {
        Seq::empty()
    } else {
        let last = if sel.end.row < grid.len() - 1 {
            sel.end.row as int
        } else {
            grid.len() - 1
        };
        sel_text_upto(grid, sel, trim, last)
    }
}

/// Scanning forward from `from` lands on `first_non_ws`.
proof fn lemma_first_non_ws(s: Seq<Cell>, i: int, m: int)
    requires
        0 <= i <= m <= s.len(),
        forall|k: int| i <= k < m ==> is_white(#[trigger] s[k].char),
        m < s.len() ==> !is_white(s[m].char),
    ensures
        first_non_ws(s, i) == m,
    decreases m - i,
{
    if i < m {
        lemma_first_non_ws(s, i + 1, m);
    }
}

/// Scanning backward from `i` lands on `last_non_ws`.
proof fn lemma_last_non_ws(s: Seq<Cell>, i: int, m: int)
    requires
        -1 <= m <= i < s.len(),
        forall|k: int| m < k <= i ==> is_white(#[trigger] s[k].char),
        m >= 0 ==> !is_white(s[m].char),
    ensures
        last_non_ws(s, i) == m,
    decreases i - m,
{
    if m < i {
        lemma_last_non_ws(s, i - 1, m);
    }
}

/// Appends one row's selected characters to `out`.
fn push_sel_row(
    out: &mut String,
    row: &Vec<Cell>,
    es: usize,
    ee: usize,
    trim_lead: bool,
    trim_trail: bool,
)
    ensures
        final(out)@ == old(out)@ + sel_row_chars(row@, es as int, ee as int, trim_lead, trim_trail),
{
    if row.len() == 0 || es > ee || es >= row.len() {
        proof {
            assert(old(out)@ + sel_row_chars(row@, es as int, ee as int, trim_lead, trim_trail)
                =~= old(out)@);
        }
        return ;
    }
    let ae = if ee < row.len() - 1 {
        ee
    } else {
        row.len() - 1
    };
    let ghost s = row@.subrange(es as int, ae + 1);
    // Leading whitespace scan (first row of a trimmed selection only)
    let mut lo: usize = es;
    if trim_lead {
        let mut stop = false;
        while !stop && lo <= ae
            invariant
                es <= lo <= ae + 1,
                ae < row@.len() <= usize::MAX,
                s == row@.subrange(es as int, ae + 1),
                forall|k: int| es <= k < lo ==> is_white(#[trigger] row@[k].char),
                stop ==> lo <= ae && !is_white(row@[lo as int].char),
            decreases ae + 1 - lo + (if stop { 0int } else { 1int }),
        {
            if char_is_whitespace(row[lo].char) {
                lo = lo + 1;
            } else {
                stop = true;
            }
        }
        proof {
            lemma_first_non_ws(s, 0, lo - es);
        }
    }
    // Trailing whitespace scan (last row of a trimmed selection only):
    // hi is one past the last kept cell.
    let mut hi: usize = ae + 1;
    if trim_trail {
        let mut stop = false;
        while !stop && hi > es
            invariant
                es <= hi <= ae + 1,
                ae < row@.len() <= usize::MAX,
                s == row@.subrange(es as int, ae + 1),
                forall|k: int| hi <= k <= ae ==> is_white(#[trigger] row@[k].char),
                stop ==> hi > es && !is_white(row@[hi - 1].char),
            decreases hi + (if stop { 0int } else { 1int }),
        {
            if char_is_whitespace(row[hi - 1].char) {
                hi = hi - 1;
            } else {
                stop = true;
            }
        }
        proof {
            lemma_last_non_ws(s, s.len() - 1, hi - es - 1);
        }
    }
    let ghost expected = sel_row_chars(row@, es as int, ee as int, trim_lead, trim_trail);
    if lo >= hi {
        proof {
            assert(old(out)@ + expected =~= old(out)@);
        }
        return ;
    }
    let mut j = lo;
    while j < hi
        invariant
            lo <= j <= hi,
            es <= lo,
            hi <= ae + 1,
            ae < row@.len(),
            out@ == old(out)@ + row@.subrange(lo as int, j as int).map_values(|c: Cell| c.char),
        decreases hi - j,
    {
        push_char(out, row[j].char);
        j += 1;
        proof {
            assert(row@.subrange(lo as int, j as int).map_values(|c: Cell| c.char) =~= row@.subrange(
                lo as int,
                j - 1,
            ).map_values(|c: Cell| c.char).push(row@[j - 1].char));
        }
    }
    proof {
        assert(s.subrange(lo - es, hi - es) =~= row@.subrange(lo as int, hi as int));
        assert(expected =~= row@.subrange(lo as int, hi as int).map_values(|c: Cell| c.char));
    }
}

/// Shared worker for text extraction: walks the selected rows, appending
/// each row's contribution and a newline between rows.
fn extract_text(grid: &[Vec<Cell>], selection: &SelectionRegion, trim: bool) -> (r: String)
    ensures
        r@ == sel_text(grid@.map_values(|v: Vec<Cell>| v@), *selection, trim),
{
    let ghost gv = grid@.map_values(|v: Vec<Cell>| v@);
    if !selection.active || grid.len() == 0 {
        return String::new();
    }
    let last = if selection.end.row < grid.len() - 1 {
        selection.end.row
    } else {
        grid.len() - 1
    };
    let multi = selection.start.row != selection.end.row;
    let es = if multi {
        if selection.start.col <= selection.end.col {
            selection.start.col
        } else {
            selection.end.col
        }
    } else {
        selection.start.col
    };
    let ee = if multi {
        if selection.start.col <= selection.end.col {
            selection.end.col
        } else {
            selection.start.col
        }
    } else {
        selection.end.col
    };
    let mut out = String::new();
    if selection.start.row > last {
        proof {
            assert(out@ =~= sel_text(gv, *selection, trim));
        }
        return out;
    }
    let mut r = selection.start.row;
    while r <= last
        invariant
            selection.start.row <= r <= last + 1,
            last < grid@.len(),
            gv == grid@.map_values(|v: Vec<Cell>| v@),
            es as int == sel_col_start(*selection),
            ee as int == sel_col_end(*selection),
            out@ == sel_text_upto(gv, *selection, trim, r - 1),
        decreases last + 1 - r,
    {
        push_sel_row(
            &mut out,
            &grid[r],
            es,
            ee,
            trim && r == selection.start.row,
            trim && r == selection.end.row,
        );
        if r < selection.end.row && r < grid.len() - 1 {
            push_char(&mut out, '\n');
        }
        r += 1;
        proof {
            assert(out@ =~= sel_text_upto(gv, *selection, trim, r - 1));
        }
    }
    proof {
        assert(out@ =~= sel_text(gv, *selection, trim));
    }
    out
}

/// Extract selected text from the grid, trimming leading whitespace on the
/// first line and trailing whitespace on the last.
pub fn extract_selected_text(grid: &[Vec<Cell>], selection: &SelectionRegion) -> (r: String)
    ensures
        r@ == sel_text(grid@.map_values(|v: Vec<Cell>| v@), *selection, true),
{
    extract_text(grid, selection, true)
}

/// Extract selected text including leading and trailing whitespace.
pub fn extract_selected_text_preserve_ws(grid: &[Vec<Cell>], selection: &SelectionRegion) -> (r:
    String)
    ensures
        r@ == sel_text(grid@.map_values(|v: Vec<Cell>| v@), *selection, false),
{
    extract_text(grid, selection, false)
}

} // verus!
